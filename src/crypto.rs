use ring::signature::KeyPair;
use vstd::arithmetic::power2::pow2;
use vstd::prelude::*;

use crate::bytes::{enc_bytes, lemma_parse_enc_bytes, lemma_pow256_8, parse_bytes, push_all};
use crate::error::{Error, Result};
use crate::message::{
    decode_payload, enc_pubseed, encode_payload, lemma_pubseed_round_trip, parse_pubseed,
    PubSeed, Signed,
};
use crate::nonce::{
    lemma_le_bytes_len, nonce_bytes, pow256, NonceSeq, CLIENT_ROLE, COUNTER_LIMIT, SERVER_ROLE,
};

verus! {

#[verifier::external_type_specification]
#[verifier::external_body]
pub struct ExEd25519KeyPair(ring::signature::Ed25519KeyPair);

#[verifier::external_type_specification]
#[verifier::external_body]
pub struct ExKeyRejected(ring::error::KeyRejected);

#[verifier::external_type_specification]
#[verifier::external_body]
pub struct ExUnspecified(ring::error::Unspecified);

#[verifier::external_type_specification]
#[verifier::external_body]
pub struct ExEphemeralPrivateKey(ring::agreement::EphemeralPrivateKey);

#[verifier::external_type_specification]
#[verifier::external_body]
pub struct ExLessSafeKey(ring::aead::LessSafeKey);

/// Whether ring accepts these bytes as a PKCS#8 (v1 or v2) Ed25519 private key.
pub uninterp spec fn ed25519_pkcs8_accepts(pkcs8: Seq<u8>) -> bool;

/// The public key of the Ed25519 key pair parsed from these PKCS#8 bytes.
pub uninterp spec fn ed25519_public_key(pkcs8: Seq<u8>) -> Seq<u8>;

/// The (deterministic) Ed25519 signature of `msg` by the key in `pkcs8`.
pub uninterp spec fn ed25519_signature(pkcs8: Seq<u8>, msg: Seq<u8>) -> Seq<u8>;

/// Whether `sig` is a valid Ed25519 signature of `msg` under `public_key`.
pub uninterp spec fn ed25519_verifies(public_key: Seq<u8>, msg: Seq<u8>, sig: Seq<u8>) -> bool;

/// PBKDF2 with HMAC-SHA256: `len` bytes derived from `secret` and `salt`.
pub uninterp spec fn pbkdf2_hmac_sha256(
    iterations: nat,
    salt: Seq<u8>,
    secret: Seq<u8>,
    len: nat,
) -> Seq<u8>;

/// ChaCha20-Poly1305 sealing: the ciphertext followed by the 16-byte tag.
pub uninterp spec fn chacha20_poly1305_seal(
    key: Seq<u8>,
    nonce: Seq<u8>,
    aad: Seq<u8>,
    plaintext: Seq<u8>,
) -> Seq<u8>;

/// ChaCha20-Poly1305 opening: the plaintext, or nothing when the tag does
/// not authenticate.
pub uninterp spec fn chacha20_poly1305_open(
    key: Seq<u8>,
    nonce: Seq<u8>,
    aad: Seq<u8>,
    sealed: Seq<u8>,
) -> Option<Seq<u8>>;

/// Relies on `Ed25519KeyPair::from_pkcs8_maybe_unchecked`: parses a v1 or v2
/// PKCS#8 document, a function of its bytes; the pair carries the document
/// it was parsed from.
#[verifier::external_body]
fn parse_ed25519_pkcs8(pkcs8: &[u8]) -> (r: core::result::Result<
    StaticKeyPair,
    ring::error::KeyRejected,
>)
    ensures
        r is Ok <==> ed25519_pkcs8_accepts(pkcs8@),
        r matches Ok(k) ==> k.pkcs8() == pkcs8@,
{
    let key_pair = ring::signature::Ed25519KeyPair::from_pkcs8_maybe_unchecked(pkcs8)?;
    Ok(StaticKeyPair { key_pair, pkcs8: Ghost(pkcs8@) })
}

/// Relies on `Ed25519KeyPair::public_key`: the public key of the pair.
#[verifier::external_body]
fn ed25519_public_key_of(k: &StaticKeyPair) -> (r: Vec<u8>)
    ensures
        r@ == ed25519_public_key(k.pkcs8()),
        r@.len() == 32,
{
    k.key_pair.public_key().as_ref().to_vec()
}

/// Relies on `Ed25519KeyPair::sign`: the deterministic Ed25519 signature of
/// `msg` by the pair.
#[verifier::external_body]
fn ed25519_sign(k: &StaticKeyPair, msg: &[u8]) -> (r: Vec<u8>)
    ensures
        r@ == ed25519_signature(k.pkcs8(), msg@),
        r@.len() == 64,
{
    k.key_pair.sign(msg).as_ref().to_vec()
}

/// Relies on `UnparsedPublicKey::verify` with `ED25519`: succeeds exactly
/// when `sig` is a valid signature of `msg` under `public_key`, which needs a
/// 32-byte key and a 64-byte signature; a signature made by
/// `Ed25519KeyPair::sign` verifies under that pair's public key.
#[verifier::external_body]
fn ed25519_verify(public_key: &[u8], msg: &[u8], sig: &[u8]) -> (r: core::result::Result<
    (),
    ring::error::Unspecified,
>)
    ensures
        r is Ok <==> ed25519_verifies(public_key@, msg@, sig@),
        public_key@.len() != 32 || sig@.len() != 64 ==> r is Err,
        forall|k: Seq<u8>|
            ed25519_pkcs8_accepts(k) && public_key@ == ed25519_public_key(k) && sig@
                == #[trigger] ed25519_signature(k, msg@) ==> r is Ok,
{
    ring::signature::UnparsedPublicKey::new(&ring::signature::ED25519, public_key).verify(
        msg,
        sig,
    )
}

/// The number that a big-endian byte string denotes.
pub open spec fn be_value(s: Seq<u8>) -> nat
    decreases s.len(),
{
    if s.len() == 0 {
        0
    } else {
        be_value(s.drop_last()) * 256 + s.last() as nat
    }
}

/// The prime of the P-384 field: 2^384 - 2^128 - 2^96 + 2^32 - 1.
pub open spec fn p384_prime() -> int {
    pow2(384) - pow2(128) - pow2(96) + pow2(32) - 1
}

/// The constant `b` of the P-384 curve `y^2 = x^3 - 3x + b`.
pub open spec fn p384_b() -> int {
    (0xb3312fa7e23ee7e4988e056be3f82d19 * pow2(256) + 0x181d9c6efe8141120314088f5013875a * pow2(
        128,
    ) + 0xc656398d8a2ed19d2a85c8edd3ec2aef) as int
}

/// Whether ring accepts these bytes as a P-384 public key: an uncompressed
/// encoding (tag 4, then x and y big-endian in 48 bytes each) of a point
/// whose coordinates are field elements and which lies on the curve.
pub open spec fn p384_point_ok(b: Seq<u8>) -> bool {
    let x = be_value(b.subrange(1, 49)) as int;
    let y = be_value(b.subrange(49, 97)) as int;
    &&& b.len() == 97
    &&& b[0] == 4
    &&& x < p384_prime()
    &&& y < p384_prime()
    &&& (y * y - (x * x * x - 3 * x + p384_b())) % p384_prime() == 0
}

/// The P-384 ECDH shared secret of the key pairs whose public keys are `a`
/// and `b`: the x-coordinate of the shared point, which both sides compute.
pub uninterp spec fn p384_shared_secret(a: Seq<u8>, b: Seq<u8>) -> Seq<u8>;

/// Relies on `EphemeralPrivateKey::generate` for `ECDH_P384`, drawing from
/// ring's `SystemRandom`, and on `compute_public_key`: a fresh private key,
/// carrying its own public key, and that public key, a 97-byte uncompressed
/// point on the curve. Fails when the random source does.
#[verifier::external_body]
fn generate_p384_key() -> (r: core::result::Result<
    (EphemeralKey, Vec<u8>),
    ring::error::Unspecified,
>)
    ensures
        r matches Ok((k, public)) ==> k.public() == public@ && public@.len() == 97
            && p384_point_ok(public@),
{
    let rng = ring::rand::SystemRandom::new();
    let key = ring::agreement::EphemeralPrivateKey::generate(&ring::agreement::ECDH_P384, &rng)?;
    let public = key.compute_public_key()?.as_ref().to_vec();
    Ok((EphemeralKey { key, public: Ghost(public@) }, public))
}

/// An ephemeral P-384 private key, with the public key that belongs to it.
pub struct EphemeralKey {
    key: ring::agreement::EphemeralPrivateKey,
    public: Ghost<Seq<u8>>,
}

impl EphemeralKey {
    /// The encoded public key of this private key.
    pub closed spec fn public(&self) -> Seq<u8> {
        self.public@
    }
}

/// Relies on `agreement::agree_ephemeral` for `ECDH_P384`: the raw shared
/// secret with the peer (48 bytes on this curve), the same secret that the
/// peer computes; it fails exactly when the peer's key does not parse as a
/// point on the curve.
#[verifier::external_body]
fn p384_agree(k: EphemeralKey, peer: &[u8]) -> (r: core::result::Result<
    Vec<u8>,
    ring::error::Unspecified,
>)
    ensures
        r is Ok <==> p384_point_ok(peer@),
        r matches Ok(secret) ==> secret@.len() == 48 && secret@ == p384_shared_secret(
            k.public(),
            peer@,
        ) && secret@ == p384_shared_secret(peer@, k.public()),
{
    let peer = ring::agreement::UnparsedPublicKey::new(&ring::agreement::ECDH_P384, peer);
    ring::agreement::agree_ephemeral(k.key, &peer, ring::error::Unspecified, |m| Ok(m.to_vec()))
}

/// Relies on `pbkdf2::derive` with `PBKDF2_HMAC_SHA256`, which fills `len`
/// bytes and panics only when `len` exceeds (2^32 - 1) digest lengths.
#[verifier::external_body]
fn pbkdf2_sha256(iterations: u32, salt: &[u8], secret: &[u8], len: usize) -> (r: Vec<u8>)
    requires
        iterations > 0,
        len <= 4096,
    ensures
        r@ == pbkdf2_hmac_sha256(iterations as nat, salt@, secret@, len as nat),
        r@.len() == len,
{
    let mut out = vec![0u8; len];
    let n = std::num::NonZeroU32::new(iterations).unwrap();
    ring::pbkdf2::derive(ring::pbkdf2::PBKDF2_HMAC_SHA256, n, salt, secret, &mut out);
    out
}

/// Relies on `UnboundKey::new` with `CHACHA20_POLY1305` (which fails exactly
/// when the key is not 32 bytes) and `LessSafeKey::new`; the key carries the
/// bytes it was made from.
#[verifier::external_body]
fn chacha_key(bytes: &[u8]) -> (r: core::result::Result<AeadKey, ring::error::Unspecified>)
    ensures
        r is Ok <==> bytes@.len() == 32,
        r matches Ok(k) ==> k.bytes() == bytes@,
{
    let key = ring::aead::LessSafeKey::new(
        ring::aead::UnboundKey::new(&ring::aead::CHACHA20_POLY1305, bytes)?,
    );
    Ok(AeadKey { key, bytes: Ghost(bytes@) })
}

/// The longest input that ring's ChaCha20-Poly1305 seals under one nonce.
pub const MAX_SEAL_INPUT: u64 = 274_877_906_880;

/// The longest plaintext that `SessionKey::seal` takes: the sealed input
/// also holds its eight-byte length.
pub const MAX_PLAINTEXT: u64 = 274_877_906_872;

/// Relies on `LessSafeKey::seal_in_place_append_tag`: on success the buffer
/// holds the ChaCha20-Poly1305 ciphertext and tag of what it held; it fails
/// only on inputs longer than `MAX_SEAL_INPUT`.
#[verifier::external_body]
fn chacha_seal(key: &AeadKey, nonce: [u8; 12], aad: &[u8], data: &mut Vec<u8>) -> (r:
    core::result::Result<(), ring::error::Unspecified>)
    ensures
        r is Ok ==> final(data)@ == chacha20_poly1305_seal(key.bytes(), nonce@, aad@, old(data)@),
        r is Ok ==> final(data)@.len() == old(data)@.len() + 16,
        old(data)@.len() <= MAX_SEAL_INPUT ==> r is Ok,
{
    let nonce = ring::aead::Nonce::assume_unique_for_key(nonce);
    key.key.seal_in_place_append_tag(nonce, ring::aead::Aad::from(aad), data)
}

/// The bytes held by an optional buffer.
pub open spec fn bytes_opt(o: Option<Vec<u8>>) -> Option<Seq<u8>> {
    match o {
        Some(v) => Some(v@),
        None => None,
    }
}

/// Relies on `LessSafeKey::open_in_place`: the plaintext, 16 bytes shorter
/// than its input, when the tag authenticates; nothing for an input shorter
/// than the tag; and what `seal_in_place_append_tag` made under the same key,
/// nonce and AAD from at most `MAX_SEAL_INPUT` bytes opens to what was sealed.
#[verifier::external_body]
fn chacha_open(key: &AeadKey, nonce: [u8; 12], aad: &[u8], sealed: &[u8]) -> (r: Option<Vec<u8>>)
    ensures
        bytes_opt(r) == chacha20_poly1305_open(key.bytes(), nonce@, aad@, sealed@),
        r matches Some(p) ==> p@.len() + 16 == sealed@.len(),
        sealed@.len() < 16 ==> r is None,
        forall|p: Seq<u8>|
            p.len() <= MAX_SEAL_INPUT && sealed@ == #[trigger] chacha20_poly1305_seal(
                key.bytes(),
                nonce@,
                aad@,
                p,
            ) ==> bytes_opt(r) == Some(p),
{
    let nonce = ring::aead::Nonce::assume_unique_for_key(nonce);
    let mut buf = sealed.to_vec();
    key.key.open_in_place(nonce, ring::aead::Aad::from(aad), &mut buf).ok().map(|p| p.to_vec())
}

/// A long-term Ed25519 identity, read from a PKCS#8 document.
pub struct StaticKeyPair {
    key_pair: ring::signature::Ed25519KeyPair,
    pkcs8: Ghost<Seq<u8>>,
}

impl StaticKeyPair {
    /// The PKCS#8 document that this pair was read from.
    pub closed spec fn pkcs8(&self) -> Seq<u8> {
        self.pkcs8@
    }

    /// Every key pair was read from a document that ring accepts.
    #[verifier::type_invariant]
    spec fn inv(self) -> bool {
        ed25519_pkcs8_accepts(self.pkcs8@)
    }

    /// Reads a key pair from the bytes of a PKCS#8 (v1 or v2) file.
    pub fn from_pkcs8(keyfile: &[u8]) -> (r: Result<Self>)
        ensures
            r is Ok <==> ed25519_pkcs8_accepts(keyfile@),
            r matches Ok(k) ==> k.pkcs8() == keyfile@,
            r is Err ==> r == Err::<Self, Error>(Error::InvalidPrivateKeyFormat),
    {
        match parse_ed25519_pkcs8(keyfile) {
            Ok(k) => Ok(k),
            Err(_) => Err(Error::InvalidPrivateKeyFormat),
        }
    }

    /// The raw public key of the pair.
    pub fn public_key(&self) -> (r: Vec<u8>)
        ensures
            r@ == ed25519_public_key(self.pkcs8()),
            r@.len() == 32,
            ed25519_pkcs8_accepts(self.pkcs8()),
    {
        proof {
            use_type_invariant(self);
        }
        ed25519_public_key_of(self)
    }

    /// Signs the bytes of a public seed.
    pub fn sign(&self, val: &PubSeed) -> (r: Signed)
        ensures
            r.data@ == enc_pubseed(val.pubkey1@, val.pubkey2@),
            r.signature@ == ed25519_signature(self.pkcs8(), r.data@),
            r.signature@.len() == 64,
            ed25519_pkcs8_accepts(self.pkcs8()),
    {
        proof {
            use_type_invariant(self);
        }
        let data = val.to_bytes();
        let signature = ed25519_sign(self, data.as_slice());
        Signed { data, signature }
    }
}

/// What opening a signed blob under `public_key` gives: the decoded seed, or
/// `InvalidSignature`, or `BrokenMessage` for a valid signature over bytes
/// that are no seed.
pub open spec fn open_result(data: Seq<u8>, signature: Seq<u8>, public_key: Seq<u8>) -> Result<
    (Seq<u8>, Seq<u8>),
> {
    if !ed25519_verifies(public_key, data, signature) {
        Err(Error::InvalidSignature)
    } else {
        match parse_pubseed(data) {
            Some(s) => Ok(s),
            None => Err(Error::BrokenMessage),
        }
    }
}

impl Signed {
    /// Succeeds exactly when the signature is valid for the data under
    /// `pubkey`; the signature of a key pair verifies under its public key.
    pub fn verify(&self, pubkey: &[u8]) -> (r: Result<()>)
        ensures
            r is Ok <==> ed25519_verifies(pubkey@, self.data@, self.signature@),
            r is Err ==> r == Err::<(), Error>(Error::InvalidSignature),
            forall|k: Seq<u8>|
                ed25519_pkcs8_accepts(k) && pubkey@ == ed25519_public_key(k) && self.signature@
                    == #[trigger] ed25519_signature(k, self.data@) ==> r is Ok,
    {
        match ed25519_verify(pubkey, self.data.as_slice(), self.signature.as_slice()) {
            Ok(()) => Ok(()),
            Err(_) => Err(Error::InvalidSignature),
        }
    }

    /// Verifies, then decodes the seed. A seed signed by a key pair opens,
    /// under that pair's public key, to the seed that was signed.
    pub fn open(self, pubkey: &[u8]) -> (r: Result<PubSeed>)
        ensures
            match open_result(self.data@, self.signature@, pubkey@) {
                Ok((p1, p2)) => r matches Ok(s) && s.pubkey1@ == p1 && s.pubkey2@ == p2,
                Err(e) => r == Err::<PubSeed, Error>(e),
            },
            forall|k: Seq<u8>, p1: Seq<u8>, p2: Seq<u8>|
                ed25519_pkcs8_accepts(k) && pubkey@ == ed25519_public_key(k) && self.data@
                    == #[trigger] enc_pubseed(p1, p2)
                    && self.signature@ == #[trigger] ed25519_signature(
                    k,
                    self.data@,
                ) && p1.len() < pow256(8) && p2.len() < pow256(8) ==> (r matches Ok(s)
                    && s.pubkey1@ == p1 && s.pubkey2@ == p2),
    {
        proof {
            assert forall|p1: Seq<u8>, p2: Seq<u8>|
                self.data@ == #[trigger] enc_pubseed(p1, p2) && p1.len() < pow256(8) && p2.len()
                    < pow256(8) implies parse_pubseed(self.data@) == Some((p1, p2)) by {
                lemma_pubseed_round_trip(p1, p2);
            }
        }
        match self.verify(pubkey) {
            Err(e) => Err(e),
            Ok(()) => PubSeed::from_bytes(self.data.as_slice()),
        }
    }
}

/// The private half of a session seed: two ephemeral P-384 keys.
pub struct PrivSeed {
    privkey1: EphemeralKey,
    privkey2: EphemeralKey,
}

impl PrivSeed {
    /// The public keys of the two private keys, first and second.
    pub closed spec fn public_keys(&self) -> (Seq<u8>, Seq<u8>) {
        (self.privkey1.public(), self.privkey2.public())
    }
}

fn new_ephemeral() -> (r: Option<(EphemeralKey, Vec<u8>)>)
    ensures
        r matches Some((k, p)) ==> k.public() == p@ && p@.len() == 97 && p384_point_ok(p@),
{
    match generate_p384_key() {
        Ok(pair) => Some(pair),
        Err(_) => None,
    }
}

/// Draws two fresh ephemeral P-384 key pairs: their private halves, and the
/// public halves to send to the other side, which are the public keys of the
/// private halves. `None` when the system random source fails.
pub fn generate_seed_pair() -> (r: Option<(PrivSeed, PubSeed)>)
    ensures
        r matches Some((private, public)) ==> {
            &&& private.public_keys() == (public.pubkey1@, public.pubkey2@)
            &&& public.pubkey1@.len() == 97
            &&& public.pubkey2@.len() == 97
            &&& p384_point_ok(public.pubkey1@)
            &&& p384_point_ok(public.pubkey2@)
        },
{
    let (privkey1, pubkey1) = match new_ephemeral() {
        Some(pair) => pair,
        None => return None,
    };
    let (privkey2, pubkey2) = match new_ephemeral() {
        Some(pair) => pair,
        None => return None,
    };
    Some((PrivSeed { privkey1, privkey2 }, PubSeed { pubkey1, pubkey2 }))
}

/// Number of PBKDF2 rounds that turn a shared secret into a key.
pub const KDF_ITERATIONS: u32 = 100000;

/// Bytes in a ChaCha20-Poly1305 key.
pub const KEY_LEN: usize = 32;

/// The key bytes derived from the shared secret `material`.
pub open spec fn session_key_from(material: Seq<u8>) -> Seq<u8> {
    pbkdf2_hmac_sha256(KDF_ITERATIONS as nat, Seq::empty(), material, KEY_LEN as nat)
}

/// A ChaCha20-Poly1305 key, with the bytes that it was made from.
pub struct AeadKey {
    key: ring::aead::LessSafeKey,
    bytes: Ghost<Seq<u8>>,
}

impl AeadKey {
    pub closed spec fn bytes(&self) -> Seq<u8> {
        self.bytes@
    }
}

/// A sealed frame: the ChaCha20-Poly1305 sealing of the length-prefixed
/// plaintext under AAD `aad || nonce`, followed by the nonce.
pub open spec fn sealed_frame(key: Seq<u8>, aad: Seq<u8>, nonce: Seq<u8>, m: Seq<u8>) -> Seq<u8> {
    chacha20_poly1305_seal(key, nonce, aad + nonce, enc_bytes(m)) + nonce
}

/// What unsealing `frame` under `key` with AAD prefix `aad` gives.
pub open spec fn unseal_result(key: Seq<u8>, aad: Seq<u8>, frame: Seq<u8>) -> Result<Seq<u8>> {
    if frame.len() < 12 {
        Err(Error::BrokenMessage)
    } else {
        let nonce = frame.skip(frame.len() - 12);
        match chacha20_poly1305_open(key, nonce, aad + nonce, frame.take(frame.len() - 12)) {
            None => Err(Error::BrokenMessage),
            Some(p) => match parse_bytes(p) {
                Some((m, _)) => Ok(m),
                None => Err(Error::BrokenMessage),
            },
        }
    }
}

/// The key derived from the agreement between public keys `a` and `b`.
pub open spec fn agreed_key(a: Seq<u8>, b: Seq<u8>) -> Seq<u8> {
    session_key_from(p384_shared_secret(a, b))
}

/// Agrees with the peer's public key and derives an AEAD key from the shared
/// secret; `BrokenMessage` exactly when the peer's key is no P-384 point.
fn derive(privkey: EphemeralKey, pubkey: &[u8]) -> (r: Result<AeadKey>)
    ensures
        r is Ok <==> p384_point_ok(pubkey@),
        r matches Ok(k) ==> k.bytes() == agreed_key(privkey.public(), pubkey@) && k.bytes()
            == agreed_key(pubkey@, privkey.public()),
        r is Err ==> r == Err::<AeadKey, Error>(Error::BrokenMessage),
{
    let ghost mine = privkey.public();
    let material = match p384_agree(privkey, pubkey) {
        Ok(m) => m,
        Err(_) => return Err(Error::BrokenMessage),
    };
    let empty: Vec<u8> = Vec::new();
    let bytes = pbkdf2_sha256(KDF_ITERATIONS, empty.as_slice(), material.as_slice(), KEY_LEN);
    assert(empty@ =~= Seq::<u8>::empty());
    match chacha_key(bytes.as_slice()) {
        Ok(key) => Ok(key),
        Err(_) => Err(Error::BrokenMessage),
    }
}

/// A client session's keys: sealing from the first agreement, opening from
/// the second, each the key that both sides of its agreement derive.
pub open spec fn keyed_as_client(s: SessionKey) -> bool {
    let (l1, l2) = s.local_keys();
    let (r1, r2) = s.remote_keys();
    &&& s.sealing_key() == agreed_key(l1, r1)
    &&& s.sealing_key() == agreed_key(r1, l1)
    &&& s.opening_key() == agreed_key(l2, r2)
    &&& s.opening_key() == agreed_key(r2, l2)
}

/// A server session's keys: opening from the first agreement, sealing from
/// the second, each the key that both sides of its agreement derive.
pub open spec fn keyed_as_server(s: SessionKey) -> bool {
    let (l1, l2) = s.local_keys();
    let (r1, r2) = s.remote_keys();
    &&& s.opening_key() == agreed_key(l1, r1)
    &&& s.opening_key() == agreed_key(r1, l1)
    &&& s.sealing_key() == agreed_key(l2, r2)
    &&& s.sealing_key() == agreed_key(r2, l2)
}

/// A session between a peer and the server: a key to open what comes in, a
/// key to seal what goes out, and the nonces for sealing.
pub struct SessionKey {
    opening: AeadKey,
    sealing: AeadKey,
    nonce_seq: NonceSeq,
    local: Ghost<(Seq<u8>, Seq<u8>)>,
    remote: Ghost<(Seq<u8>, Seq<u8>)>,
}

impl SessionKey {
    /// The key bytes that inbound frames are opened with.
    pub closed spec fn opening_key(&self) -> Seq<u8> {
        self.opening.bytes()
    }

    /// The key bytes that outbound frames are sealed with.
    pub closed spec fn sealing_key(&self) -> Seq<u8> {
        self.sealing.bytes()
    }

    /// Our two ephemeral public keys, first and second.
    pub closed spec fn local_keys(&self) -> (Seq<u8>, Seq<u8>) {
        self.local@
    }

    /// The other side's two ephemeral public keys, first and second.
    pub closed spec fn remote_keys(&self) -> (Seq<u8>, Seq<u8>) {
        self.remote@
    }

    /// The role tag in byte 11 of every nonce this session seals with.
    pub closed spec fn role(&self) -> u8 {
        self.nonce_seq.role()
    }

    /// The counter that the next sealed frame's nonce will carry.
    pub closed spec fn next_counter(&self) -> nat {
        self.nonce_seq.next_counter()
    }

    /// The session of a client: the first agreement keys sealing, the second
    /// opening, and nonces tagged with the client role. `BrokenMessage` when
    /// the server's public seed is not a valid pair of P-384 keys, and only then.
    pub fn client_derive(privseed: PrivSeed, pubseed: PubSeed) -> (r: Result<Self>)
        ensures
            r matches Ok(s) ==> {
                &&& s.role() == CLIENT_ROLE
                &&& s.next_counter() == 0
                &&& s.local_keys() == privseed.public_keys()
                &&& s.remote_keys() == (pubseed.pubkey1@, pubseed.pubkey2@)
                &&& keyed_as_client(s)
            },
            r is Ok <==> p384_point_ok(pubseed.pubkey1@) && p384_point_ok(pubseed.pubkey2@),
            r is Err ==> r == Err::<Self, Error>(Error::BrokenMessage),
    {
        let ghost local = privseed.public_keys();
        let PrivSeed { privkey1, privkey2 } = privseed;
        let sealing = derive(privkey1, pubseed.pubkey1.as_slice())?;
        let opening = derive(privkey2, pubseed.pubkey2.as_slice())?;
        Ok(SessionKey {
            opening,
            sealing,
            nonce_seq: NonceSeq::new(CLIENT_ROLE),
            local: Ghost(local),
            remote: Ghost((pubseed.pubkey1@, pubseed.pubkey2@)),
        })
    }

    /// The session of the server: the first agreement keys opening, the second
    /// sealing, and nonces tagged with the server role. `BrokenMessage` when
    /// the client's public seed is not a valid pair of P-384 keys, and only then.
    pub fn server_derive(privseed: PrivSeed, pubseed: PubSeed) -> (r: Result<Self>)
        ensures
            r matches Ok(s) ==> {
                &&& s.role() == SERVER_ROLE
                &&& s.next_counter() == 0
                &&& s.local_keys() == privseed.public_keys()
                &&& s.remote_keys() == (pubseed.pubkey1@, pubseed.pubkey2@)
                &&& keyed_as_server(s)
            },
            r is Ok <==> p384_point_ok(pubseed.pubkey1@) && p384_point_ok(pubseed.pubkey2@),
            r is Err ==> r == Err::<Self, Error>(Error::BrokenMessage),
    {
        let ghost local = privseed.public_keys();
        let PrivSeed { privkey1, privkey2 } = privseed;
        let opening = derive(privkey1, pubseed.pubkey1.as_slice())?;
        let sealing = derive(privkey2, pubseed.pubkey2.as_slice())?;
        Ok(SessionKey {
            opening,
            sealing,
            nonce_seq: NonceSeq::new(SERVER_ROLE),
            local: Ghost(local),
            remote: Ghost((pubseed.pubkey1@, pubseed.pubkey2@)),
        })
    }

    /// Seals `data` under the next nonce, with `aad || nonce` authenticated;
    /// the frame ends with the nonce. Fails with `NonceExhausted`, changing
    /// nothing, once the counter has run out.
    pub fn seal(&mut self, aad: &[u8], data: &[u8]) -> (r: Result<Vec<u8>>)
        ensures
            final(self).role() == old(self).role(),
            final(self).opening_key() == old(self).opening_key(),
            final(self).sealing_key() == old(self).sealing_key(),
            final(self).local_keys() == old(self).local_keys(),
            final(self).remote_keys() == old(self).remote_keys(),
            old(self).next_counter() >= COUNTER_LIMIT ==> r == Err::<Vec<u8>, Error>(
                Error::NonceExhausted,
            ) && *final(self) == *old(self),
            old(self).next_counter() < COUNTER_LIMIT ==> final(self).next_counter()
                == old(self).next_counter() + 1,
            r matches Ok(c) ==> c@.len() == data@.len() + 36,
            r matches Ok(c) ==> c@ == sealed_frame(
                old(self).sealing_key(),
                aad@,
                nonce_bytes(old(self).next_counter(), old(self).role()),
                data@,
            ),
            old(self).next_counter() < COUNTER_LIMIT && data@.len() <= MAX_PLAINTEXT ==> r is Ok,
            r is Err ==> r == Err::<Vec<u8>, Error>(Error::NonceExhausted) || r == Err::<
                Vec<u8>,
                Error,
            >(Error::BrokenMessage),
    {
        let nonce = self.nonce_seq.advance()?;
        let mut full_aad: Vec<u8> = Vec::new();
        push_all(&mut full_aad, aad);
        push_all(&mut full_aad, nonce.as_slice());
        let mut bytes = encode_payload(data);
        proof {
            crate::nonce::lemma_le_bytes_len(data@.len(), 8);
        }
        match chacha_seal(&self.sealing, nonce, full_aad.as_slice(), &mut bytes) {
            Ok(()) => {},
            Err(_) => return Err(Error::BrokenMessage),
        }
        push_all(&mut bytes, nonce.as_slice());
        Ok(bytes)
    }

    /// Opens a frame made by `seal` on the other side: splits off the
    /// trailing nonce, authenticates `aad || nonce`, and decodes the
    /// plaintext. `BrokenMessage` on a short frame, a bad tag or a bad
    /// payload; a frame sealed under this session's opening key and the same
    /// AAD prefix opens to what was sealed.
    pub fn unseal(&self, aad: &[u8], ciphertext: &[u8]) -> (r: Result<Vec<u8>>)
        ensures
            match unseal_result(self.opening_key(), aad@, ciphertext@) {
                Ok(m) => r matches Ok(v) && v@ == m,
                Err(e) => r == Err::<Vec<u8>, Error>(e),
            },
            ciphertext@.len() < 36 ==> r == Err::<Vec<u8>, Error>(Error::BrokenMessage),
            forall|n: Seq<u8>, m: Seq<u8>|
                n.len() == 12 && m.len() <= MAX_PLAINTEXT && ciphertext@ == #[trigger] sealed_frame(
                    self.opening_key(),
                    aad@,
                    n,
                    m,
                ) ==> (r matches Ok(v) && v@ == m),
    {
        let len = ciphertext.len();
        if len < 12 {
            return Err(Error::BrokenMessage);
        }
        let split = len - 12;
        let nonce: [u8; 12] = [
            ciphertext[split],
            ciphertext[split + 1],
            ciphertext[split + 2],
            ciphertext[split + 3],
            ciphertext[split + 4],
            ciphertext[split + 5],
            ciphertext[split + 6],
            ciphertext[split + 7],
            ciphertext[split + 8],
            ciphertext[split + 9],
            ciphertext[split + 10],
            ciphertext[split + 11],
        ];
        assert(nonce@ =~= ciphertext@.skip(split as int));
        let mut body: Vec<u8> = Vec::new();
        let mut i: usize = 0;
        while i < split
            invariant
                i <= split,
                split < ciphertext@.len(),
                body@ == ciphertext@.take(i as int),
            decreases split - i,
        {
            body.push(ciphertext[i]);
            assert(ciphertext@.take(i + 1) =~= ciphertext@.take(i as int).push(
                ciphertext@[i as int],
            ));
            i = i + 1;
        }
        let mut full_aad: Vec<u8> = Vec::new();
        push_all(&mut full_aad, aad);
        push_all(&mut full_aad, nonce.as_slice());
        assert(full_aad@ =~= aad@ + nonce@);
        assert(body@ =~= ciphertext@.take(split as int));
        proof {
            lemma_pow256_8();
            assert forall|n: Seq<u8>, m: Seq<u8>|
                n.len() == 12 && m.len() <= MAX_PLAINTEXT && ciphertext@ == #[trigger] sealed_frame(
                    self.opening_key(),
                    aad@,
                    n,
                    m,
                ) implies body@ == chacha20_poly1305_seal(
                self.opening_key(),
                nonce@,
                full_aad@,
                enc_bytes(m),
            ) && n == nonce@ && parse_bytes(enc_bytes(m)) == Some((m, Seq::<u8>::empty())) by {
                let c = chacha20_poly1305_seal(self.opening_key(), n, aad@ + n, enc_bytes(m));
                assert(ciphertext@.skip(split as int) =~= n);
                assert(ciphertext@.take(split as int) =~= c);
                lemma_le_bytes_len(m.len(), 8);
                lemma_parse_enc_bytes(m, Seq::<u8>::empty());
                assert(enc_bytes(m) + Seq::<u8>::empty() =~= enc_bytes(m));
            }
        }
        match chacha_open(&self.opening, nonce, full_aad.as_slice(), body.as_slice()) {
            None => Err(Error::BrokenMessage),
            Some(plain) => decode_payload(plain.as_slice()),
        }
    }
}

} // verus!
