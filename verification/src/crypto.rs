//! Crypto for cloud sync.
//!
//! - **KEK** (key-encryption key): 32 bytes derived from the user's
//!   passphrase with Argon2id. Held only in memory.
//! - **Identity keypair**: long-lived X25519 keypair.
//! - **Vault key**: 32-byte XChaCha20-Poly1305 key, wrapped per member
//!   with a sealed-box construction over the member's X25519 public key.
//! - **Recovery envelope**: a one-time recovery key wraps a copy of the KEK.
//!
//! The primitives come from `chacha20poly1305`, `x25519-dalek`, `hkdf`,
//! `argon2`, `ring` and `hex`; this module frames and checks their inputs
//! and outputs.

use vstd::prelude::*;
use vstd::string::StringSliceAdditionalSpecFns;
use crate::hexcodec::{hex_lower_chars, hex_decode_chars, lemma_hex_round_trip, lemma_hex_lower_digits, lemma_hex_lower_len};
use crate::text::{trim, trim_seq, trim_start_seq, trim_end_seq, is_ws};
use chacha20poly1305::aead::{Aead, KeyInit};
use chacha20poly1305::{XChaCha20Poly1305, XNonce};
use ring::rand::{SecureRandom, SystemRandom};
use zeroize::Zeroize;

verus! {

broadcast use vstd::array::array_len_matches_n;

/// Argon2id memory cost in KiB (64 MiB).
pub const ARGON2_M_COST: u32 = 65536;
/// Argon2id iterations.
pub const ARGON2_T_COST: u32 = 3;
/// Argon2id lanes.
pub const ARGON2_P_COST: u32 = 1;

/// Bytes of the random nonce in front of every AEAD blob.
pub const NONCE_LEN: usize = 24;
/// Bytes of the Poly1305 tag at the end of every ciphertext.
pub const TAG_LEN: usize = 16;

/// 32-byte symmetric key derived from a passphrase.
pub struct KekMaterial(pub [u8; 32]);

/// 32-byte symmetric vault key.
pub struct VaultKey(pub [u8; 32]);

/// An X25519 keypair as raw bytes: the secret scalar and its public key.
pub struct IdentityKeypair {
    pub secret: [u8; 32],
    pub public: [u8; 32],
}

/// Why a crypto operation failed.
#[derive(Debug)]
pub enum CryptoError {
    /// The operating system's random source failed.
    Rng,
    /// Argon2 refused a password longer than 2^32 - 1 bytes.
    Argon2PasswordTooLong,
    /// Argon2 refused a salt shorter than 8 bytes.
    Argon2SaltTooShort,
    /// Argon2 refused a salt longer than 2^32 - 1 bytes.
    Argon2SaltTooLong,
    /// Argon2 failed otherwise (not reached with the library's parameters).
    Argon2Failed,
    /// The plaintext is too long for XChaCha20-Poly1305.
    Seal,
    /// An AEAD blob is shorter than its nonce and tag.
    AeadBlobTooShort,
    /// A sealed box is shorter than its key, nonce and tag.
    SealedBlobTooShort,
    /// Authentication failed: wrong key, wrong associated data, or tampering.
    Open,
    /// The recovery key text is not hex.
    RecoveryHex,
    /// The recovery key does not decode to 32 bytes.
    RecoveryKeyLength,
    /// The recovered KEK is not 32 bytes.
    RecoveredKekLength,
}

impl CryptoError {
    /// Text of the error, as the caller shows it.
    pub open spec fn spec_message(&self) -> Seq<char> {
        match *self {
            CryptoError::Rng => "system rng fill failed"@,
            CryptoError::Argon2PasswordTooLong => "argon2 derive: password is too long"@,
            CryptoError::Argon2SaltTooShort => "argon2 derive: salt is too short"@,
            CryptoError::Argon2SaltTooLong => "argon2 derive: salt is too long"@,
            CryptoError::Argon2Failed => "argon2 derive failed"@,
            CryptoError::Seal => "aead seal failed: aead::Error"@,
            CryptoError::AeadBlobTooShort => "aead blob too short"@,
            CryptoError::SealedBlobTooShort => "sealed blob too short"@,
            CryptoError::Open => "aead open failed: aead::Error"@,
            CryptoError::RecoveryHex => "invalid recovery key hex"@,
            CryptoError::RecoveryKeyLength => "recovery key must be 32 bytes"@,
            CryptoError::RecoveredKekLength => "recovered KEK has wrong length"@,
        }
    }

    /// The error's text.
    pub fn message(&self) -> (r: &'static str)
        ensures
            r@ == self.spec_message(),
    {
        match self {
            CryptoError::Rng => "system rng fill failed",
            CryptoError::Argon2PasswordTooLong => "argon2 derive: password is too long",
            CryptoError::Argon2SaltTooShort => "argon2 derive: salt is too short",
            CryptoError::Argon2SaltTooLong => "argon2 derive: salt is too long",
            CryptoError::Argon2Failed => "argon2 derive failed",
            CryptoError::Seal => "aead seal failed: aead::Error",
            CryptoError::AeadBlobTooShort => "aead blob too short",
            CryptoError::SealedBlobTooShort => "sealed blob too short",
            CryptoError::Open => "aead open failed: aead::Error",
            CryptoError::RecoveryHex => "invalid recovery key hex",
            CryptoError::RecoveryKeyLength => "recovery key must be 32 bytes",
            CryptoError::RecoveredKekLength => "recovered KEK has wrong length",
        }
    }
}

// ---- Names for what the primitives compute ----

/// XChaCha20-Poly1305 ciphertext with its 16-byte tag appended.
pub uninterp spec fn xchacha20poly1305_seal(key: Seq<u8>, nonce: Seq<u8>, msg: Seq<u8>, aad: Seq<u8>) -> Seq<u8>;

/// XChaCha20-Poly1305 decryption of ciphertext-with-tag; `None` when
/// authentication fails.
pub uninterp spec fn xchacha20poly1305_open(key: Seq<u8>, nonce: Seq<u8>, ct: Seq<u8>, aad: Seq<u8>) -> Option<Seq<u8>>;

/// X25519 public key of a secret scalar (clamped, times the base point).
pub uninterp spec fn x25519_public(secret: Seq<u8>) -> Seq<u8>;

/// X25519 shared secret of a secret scalar and a public key.
pub uninterp spec fn x25519_shared(secret: Seq<u8>, public: Seq<u8>) -> Seq<u8>;

/// 32 bytes of HKDF-SHA256 output for the given salt, input key material and info.
pub uninterp spec fn hkdf_sha256_32(salt: Seq<u8>, ikm: Seq<u8>, info: Seq<u8>) -> Seq<u8>;

/// Argon2id (v0x13, 64 MiB, 3 passes, 1 lane) 32-byte output.
pub uninterp spec fn argon2id_32(password: Seq<u8>, salt: Seq<u8>) -> Seq<u8>;

/// Messages XChaCha20-Poly1305 accepts: fewer than 2^32 - 1 blocks of 64 bytes.
pub open spec fn within_aead_limit(len: int) -> bool {
    len / 64 < 0xFFFF_FFFF
}

// ---- Trusted calls ----

/// `ring::rand::SystemRandom::fill`: fills the buffer from the OS random
/// source. What it writes is random; only the length is kept.
#[verifier::external_body]
fn os_fill(buf: &mut Vec<u8>) -> (ok: bool)
    ensures
        final(buf)@.len() == old(buf)@.len(),
{
    SystemRandom::new().fill(buf.as_mut_slice()).is_ok()
}

/// `ring::rand::SystemRandom::fill` on a fixed-size array. What it writes is random.
#[verifier::external_body]
fn os_fill_array<const N: usize>() -> (r: Option<[u8; N]>) {
    let mut a = [0u8; N];
    match SystemRandom::new().fill(&mut a) {
        Ok(()) => Some(a),
        Err(_) => None,
    }
}

/// `XChaCha20Poly1305::encrypt`: the ciphertext with its tag, 16 bytes
/// longer than the message. It fails only for messages of 2^32 - 1 or
/// more 64-byte blocks.
#[verifier::external_body]
fn xchacha_encrypt(key: &[u8; 32], nonce: &[u8; 24], msg: &[u8], aad: &[u8]) -> (r: Option<Vec<u8>>)
    ensures
        r matches Some(ct) ==> ct@ == xchacha20poly1305_seal(key@, nonce@, msg@, aad@),
        r matches Some(ct) ==> ct@.len() == msg@.len() + 16,
        r is Some <==> within_aead_limit(msg@.len() as int),
{
    let cipher = XChaCha20Poly1305::new(key.into());
    cipher.encrypt(XNonce::from_slice(nonce), chacha20poly1305::aead::Payload { msg, aad }).ok()
}

/// `XChaCha20Poly1305::decrypt`: the plaintext when the tag
/// authenticates. Decrypting, with the same key, nonce and associated
/// data, what encryption produced gives the message back.
#[verifier::external_body]
fn xchacha_decrypt(key: &[u8; 32], nonce: &[u8], ct: &[u8], aad: &[u8]) -> (r: Option<Vec<u8>>)
    requires
        nonce@.len() == 24,
    ensures
        match r {
            Some(p) => xchacha20poly1305_open(key@, nonce@, ct@, aad@) == Some(p@),
            None => xchacha20poly1305_open(key@, nonce@, ct@, aad@) is None,
        },
        r is None ==> forall|m: Seq<u8>|
            #[trigger] xchacha20poly1305_seal(key@, nonce@, m, aad@) == ct@ ==> !within_aead_limit(
                m.len() as int,
            ),
        r matches Some(p) ==> forall|m: Seq<u8>|
            #[trigger] xchacha20poly1305_seal(key@, nonce@, m, aad@) == ct@ && within_aead_limit(
                m.len() as int,
            ) ==> p@ == m,
{
    let cipher = XChaCha20Poly1305::new(key.into());
    cipher.decrypt(XNonce::from_slice(nonce), chacha20poly1305::aead::Payload { msg: ct, aad }).ok()
}

/// `x25519_dalek::PublicKey::from(&StaticSecret::from(secret))`.
#[verifier::external_body]
pub(crate) fn x25519_public_of(secret: &[u8; 32]) -> (p: [u8; 32])
    ensures
        p@ == x25519_public(secret@),
{
    let s = x25519_dalek::StaticSecret::from(*secret);
    *x25519_dalek::PublicKey::from(&s).as_bytes()
}

/// `StaticSecret::diffie_hellman`. Both sides of an exchange compute the
/// same secret: with `public` the public key of `s2`, the result equals
/// what `s2` computes against this secret's public key.
#[verifier::external_body]
fn x25519_dh(secret: &[u8; 32], public: &[u8; 32]) -> (k: [u8; 32])
    ensures
        k@ == x25519_shared(secret@, public@),
        forall|s2: Seq<u8>|
            s2.len() == 32 && #[trigger] x25519_public(s2) == public@ ==> k@ == x25519_shared(
                s2,
                x25519_public(secret@),
            ),
{
    let s = x25519_dalek::StaticSecret::from(*secret);
    *s.diffie_hellman(&x25519_dalek::PublicKey::from(*public)).as_bytes()
}

/// `Hkdf::<Sha256>::new(Some(salt), ikm).expand(info, &mut [0; 32])`.
/// Expansion fails only for outputs longer than 255 * 32 bytes, so it
/// always succeeds here.
#[verifier::external_body]
fn hkdf_expand_32(salt: &[u8], ikm: &[u8], info: &[u8]) -> (r: Option<[u8; 32]>)
    ensures
        r matches Some(k) ==> k@ == hkdf_sha256_32(salt@, ikm@, info@),
        r is Some,
{
    let mut okm = [0u8; 32];
    match hkdf::Hkdf::<sha2::Sha256>::new(Some(salt), ikm).expand(info, &mut okm) {
        Ok(()) => Some(okm),
        Err(_) => None,
    }
}

/// Which input Argon2 refuses, checked in its order: the password's length,
/// then the salt's.
pub open spec fn argon2_refusal(password_len: int, salt_len: int) -> Option<CryptoError> {
    if password_len > 0xFFFF_FFFF {
        Some(CryptoError::Argon2PasswordTooLong)
    } else if salt_len < 8 {
        Some(CryptoError::Argon2SaltTooShort)
    } else if salt_len > 0xFFFF_FFFF {
        Some(CryptoError::Argon2SaltTooLong)
    } else {
        None
    }
}

/// `Argon2::hash_password_into` with Argon2id v0x13 and the cost
/// parameters above, 32 bytes out. With these parameters and output length
/// it refuses only the inputs that `argon2_refusal` names, with that error;
/// its other errors (and a refusal of the fixed parameters) cannot occur,
/// and the body answers them with `Argon2Failed` only for completeness.
#[verifier::external_body]
fn argon2id_derive(password: &[u8], salt: &[u8]) -> (r: Result<[u8; 32], CryptoError>)
    ensures
        match r {
            Ok(k) => k@ == argon2id_32(password@, salt@) && argon2_refusal(password@.len() as int, salt@.len() as int) is None,
            Err(e) => argon2_refusal(password@.len() as int, salt@.len() as int) == Some(e),
        },
{
    let params = match argon2::Params::new(ARGON2_M_COST, ARGON2_T_COST, ARGON2_P_COST, Some(32)) {
        Ok(p) => p,
        Err(_) => return Err(CryptoError::Argon2Failed),
    };
    let argon = argon2::Argon2::new(argon2::Algorithm::Argon2id, argon2::Version::V0x13, params);
    let mut out = [0u8; 32];
    match argon.hash_password_into(password, salt, &mut out) {
        Ok(()) => Ok(out),
        Err(argon2::Error::PwdTooLong) => Err(CryptoError::Argon2PasswordTooLong),
        Err(argon2::Error::SaltTooLong) => Err(CryptoError::Argon2SaltTooLong),
        Err(argon2::Error::SaltTooShort) => Err(CryptoError::Argon2SaltTooShort),
        Err(_) => Err(CryptoError::Argon2Failed),
    }
}

/// `hex::encode`: lower-case hex, two digits per byte.
#[verifier::external_body]
pub(crate) fn hex_encode(bytes: &[u8]) -> (s: String)
    ensures
        s@ == hex_lower_chars(bytes@),
{
    hex::encode(bytes)
}

/// `hex::decode`: accepts digits of either case; fails on an odd length
/// or any other character, with the error's text.
#[verifier::external_body]
pub(crate) fn hex_decode(s: &str) -> (r: Result<Vec<u8>, String>)
    ensures
        match r {
            Ok(v) => hex_decode_chars(s@) == Some(v@),
            Err(_) => hex_decode_chars(s@) is None,
        },
{
    hex::decode(s).map_err(|e| e.to_string())
}

/// `zeroize::Zeroize::zeroize` on a 32-byte key: every byte becomes zero,
/// in a write the compiler does not optimise away.
#[verifier::external_body]
fn wipe_key(k: &mut [u8; 32])
    ensures
        final(k)@ == Seq::new(32, |i: int| 0u8),
{
    k.zeroize();
}

// ---- The library's constructions ----

/// `blob` is `nonce || ciphertext` where the ciphertext seals `msg` under
/// `key` with the 24-byte nonce in front and associated data `aad`.
pub open spec fn aead_sealed(blob: Seq<u8>, key: Seq<u8>, msg: Seq<u8>, aad: Seq<u8>) -> bool {
    &&& blob.len() == msg.len() + 40
    &&& xchacha20poly1305_seal(key, blob.subrange(0, 24), msg, aad) == blob.subrange(24, blob.len() as int)
}

/// What opening a `nonce || ciphertext` blob yields.
pub open spec fn aead_opened(key: Seq<u8>, blob: Seq<u8>, aad: Seq<u8>) -> Option<Seq<u8>> {
    if blob.len() < 40 {
        None
    } else {
        xchacha20poly1305_open(key, blob.subrange(0, 24), blob.subrange(24, blob.len() as int), aad)
    }
}

/// `n` random bytes from the operating system.
pub fn random_bytes(n: usize) -> (r: Result<Vec<u8>, CryptoError>)
    ensures
        r matches Ok(v) ==> v@.len() == n,
        r matches Err(e) ==> e is Rng,
{
    let mut v: Vec<u8> = Vec::new();
    let mut i: usize = 0;
    while i < n
        invariant
            i <= n,
            v@.len() == i,
        decreases n - i,
    {
        v.push(0u8);
        i += 1;
    }
    if os_fill(&mut v) {
        Ok(v)
    } else {
        Err(CryptoError::Rng)
    }
}

/// `N` random bytes from the operating system.
pub fn random_array<const N: usize>() -> (r: Result<[u8; N], CryptoError>)
    ensures
        r matches Err(e) ==> e is Rng,
{
    match os_fill_array::<N>() {
        Some(a) => Ok(a),
        None => Err(CryptoError::Rng),
    }
}

/// Derive the KEK from a passphrase and salt with Argon2id.
pub fn derive_kek(passphrase: &str, salt: &[u8]) -> (r: Result<KekMaterial, CryptoError>)
    ensures
        match r {
            Ok(k) => k.0@ == argon2id_32(passphrase.spec_bytes(), salt@),
            Err(e) => argon2_refusal(passphrase.spec_bytes().len() as int, salt@.len() as int) == Some(e),
        },
        r is Ok <==> argon2_refusal(passphrase.spec_bytes().len() as int, salt@.len() as int) is None,
{
    match argon2id_derive(passphrase.as_bytes(), salt) {
        Ok(k) => Ok(KekMaterial(k)),
        Err(e) => Err(e),
    }
}

/// XChaCha20-Poly1305 encryption under a fresh random nonce. Returns
/// `nonce || ciphertext`.
pub fn aead_seal(key: &[u8; 32], plaintext: &[u8], aad: &[u8]) -> (r: Result<Vec<u8>, CryptoError>)
    ensures
        match r {
            Ok(blob) => aead_sealed(blob@, key@, plaintext@, aad@) && within_aead_limit(plaintext@.len() as int),
            Err(e) => e is Rng || (e is Seal && !within_aead_limit(plaintext@.len() as int)),
        },
{
    let nonce: [u8; 24] = match os_fill_array::<24>() {
        Some(a) => a,
        None => return Err(CryptoError::Rng),
    };
    let ct = match xchacha_encrypt(key, &nonce, plaintext, aad) {
        Some(ct) => ct,
        None => return Err(CryptoError::Seal),
    };
    let mut out: Vec<u8> = Vec::new();
    let mut i: usize = 0;
    while i < 24
        invariant
            i <= 24,
            out@ == nonce@.subrange(0, i as int),
        decreases 24 - i,
    {
        out.push(nonce[i]);
        i += 1;
    }
    let mut j: usize = 0;
    while j < ct.len()
        invariant
            j <= ct@.len(),
            out@ == nonce@ + ct@.subrange(0, j as int),
        decreases ct@.len() - j,
    {
        out.push(ct[j]);
        j += 1;
    }
    assert(out@.subrange(0, 24) =~= nonce@);
    assert(out@.subrange(24, out@.len() as int) =~= ct@);
    Ok(out)
}

fn copy_range(b: &[u8], lo: usize, hi: usize) -> (out: Vec<u8>)
    requires
        lo <= hi <= b@.len(),
    ensures
        out@ == b@.subrange(lo as int, hi as int),
{
    let mut out: Vec<u8> = Vec::new();
    let mut i: usize = lo;
    while i < hi
        invariant
            lo <= i <= hi,
            hi <= b@.len(),
            out@ == b@.subrange(lo as int, i as int),
        decreases hi - i,
    {
        out.push(b[i]);
        i += 1;
    }
    out
}

pub(crate) fn array32(v: &Vec<u8>) -> (a: [u8; 32])
    requires
        v@.len() == 32,
    ensures
        a@ == v@,
{
    let mut a = [0u8; 32];
    let mut i: usize = 0;
    while i < 32
        invariant
            v@.len() == 32,
            i <= 32,
            a@.len() == 32,
            forall|j: int| 0 <= j < i ==> a@[j] == v@[j],
        decreases 32 - i,
    {
        a[i] = v[i];
        i += 1;
    }
    assert(a@ =~= v@);
    a
}

/// Inverse of [`aead_seal`]: the input must be `nonce || ciphertext`. A
/// blob that `aead_seal` produced opens, with the same key and associated
/// data, to exactly the sealed message.
pub fn aead_open(key: &[u8; 32], blob: &[u8], aad: &[u8]) -> (r: Result<Vec<u8>, CryptoError>)
    ensures
        match r {
            Ok(p) => aead_opened(key@, blob@, aad@) == Some(p@),
            Err(e) => (blob@.len() < 40 && e is AeadBlobTooShort) || (blob@.len() >= 40 && e is Open
                && aead_opened(key@, blob@, aad@) is None),
        },
        r is Err ==> forall|m: Seq<u8>|
            #[trigger] aead_sealed(blob@, key@, m, aad@) ==> !within_aead_limit(m.len() as int),
        r matches Ok(p) ==> forall|m: Seq<u8>|
            #[trigger] aead_sealed(blob@, key@, m, aad@) && within_aead_limit(m.len() as int) ==> p@ == m,
        forall|m: Seq<u8>|
            #[trigger] aead_sealed(blob@, key@, m, aad@) && within_aead_limit(m.len() as int) ==> (r matches Ok(
                p,
            ) && p@ == m),
{
    if blob.len() < 40 {
        return Err(CryptoError::AeadBlobTooShort);
    }
    let nonce = copy_range(blob, 0, 24);
    let ct = copy_range(blob, 24, blob.len());
    match xchacha_decrypt(key, nonce.as_slice(), ct.as_slice(), aad) {
        Some(p) => Ok(p),
        None => Err(CryptoError::Open),
    }
}

/// Generate a new long-lived X25519 keypair.
pub fn new_identity_keypair() -> (r: Result<IdentityKeypair, CryptoError>)
    ensures
        match r {
            Ok(kp) => kp.public@ == x25519_public(kp.secret@),
            Err(e) => e is Rng,
        },
{
    let secret: [u8; 32] = match os_fill_array::<32>() {
        Some(a) => a,
        None => return Err(CryptoError::Rng),
    };
    let public = x25519_public_of(&secret);
    Ok(IdentityKeypair { secret, public })
}

/// Mint a vault key.
pub fn new_vault_key() -> (r: Result<VaultKey, CryptoError>)
    ensures
        r matches Err(e) ==> e is Rng,
{
    match os_fill_array::<32>() {
        Some(a) => Ok(VaultKey(a)),
        None => Err(CryptoError::Rng),
    }
}

/// HKDF info string of the sealed-box key wrap.
pub open spec fn wrap_info() -> Seq<u8> {
    "audire-sync wrap v1".spec_bytes()
}

/// Associated data of the recovery envelope.
pub open spec fn recovery_aad() -> Seq<u8> {
    "audire-recovery v1".spec_bytes()
}

/// The symmetric key of a sealed box: HKDF-SHA256 over the X25519 shared
/// secret, salted with the ephemeral public key.
pub open spec fn wrap_key(eph_public: Seq<u8>, shared: Seq<u8>) -> Seq<u8> {
    hkdf_sha256_32(eph_public, shared, wrap_info())
}

/// `blob` is `eph_pub(32) || nonce(24) || ciphertext` sealing `msg` so
/// that the holder of `secret` opens it: the key is derived from the
/// shared secret of `secret` and the ephemeral public key in front.
pub open spec fn sealed_to(blob: Seq<u8>, secret: Seq<u8>, msg: Seq<u8>) -> bool {
    &&& blob.len() >= 32
    &&& aead_sealed(
        blob.subrange(32, blob.len() as int),
        wrap_key(blob.subrange(0, 32), x25519_shared(secret, blob.subrange(0, 32))),
        msg,
        blob.subrange(0, 32),
    )
}

/// Sealed-box style encryption to a recipient's X25519 public key:
/// ephemeral X25519 + HKDF-SHA256 + XChaCha20-Poly1305, laid out as
/// `eph_pub(32) || nonce(24) || ciphertext+tag`.
pub fn seal_for_recipient(recipient_pub: &[u8; 32], plaintext: &[u8]) -> (r: Result<Vec<u8>, CryptoError>)
    ensures
        r matches Ok(out) ==> forall|s: Seq<u8>|
            s.len() == 32 && #[trigger] x25519_public(s) == recipient_pub@ ==> sealed_to(out@, s, plaintext@),
        r matches Ok(out) ==> out@.len() == plaintext@.len() + 72,
        r is Ok ==> within_aead_limit(plaintext@.len() as int),
        r matches Err(e) ==> e is Rng || (e is Seal && !within_aead_limit(plaintext@.len() as int)),
{
    let eph_secret: [u8; 32] = match os_fill_array::<32>() {
        Some(a) => a,
        None => return Err(CryptoError::Rng),
    };
    let eph_public = x25519_public_of(&eph_secret);
    let shared = x25519_dh(&eph_secret, recipient_pub);
    let mut sym = match hkdf_expand_32(eph_public.as_slice(), shared.as_slice(), "audire-sync wrap v1".as_bytes()) {
        Some(k) => k,
        None => return Err(CryptoError::Seal),
    };
    let blob = aead_seal(&sym, plaintext, eph_public.as_slice())?;
    wipe_key(&mut sym);
    let mut out: Vec<u8> = Vec::new();
    let mut i: usize = 0;
    while i < 32
        invariant
            i <= 32,
            out@ == eph_public@.subrange(0, i as int),
        decreases 32 - i,
    {
        out.push(eph_public[i]);
        i += 1;
    }
    let mut j: usize = 0;
    while j < blob.len()
        invariant
            j <= blob@.len(),
            out@ == eph_public@ + blob@.subrange(0, j as int),
        decreases blob@.len() - j,
    {
        out.push(blob[j]);
        j += 1;
    }
    assert(out@.subrange(0, 32) =~= eph_public@);
    assert(out@.subrange(32, out@.len() as int) =~= blob@);
    assert forall|s: Seq<u8>|
        s.len() == 32 && #[trigger] x25519_public(s) == recipient_pub@ implies sealed_to(out@, s, plaintext@) by {
        assert(shared@ == x25519_shared(s, x25519_public(eph_secret@)));
    }
    Ok(out)
}

/// What opening a sealed box with a recipient secret yields.
pub open spec fn sealed_opened(secret: Seq<u8>, blob: Seq<u8>) -> Option<Seq<u8>> {
    if blob.len() < 72 {
        None
    } else {
        let eph = blob.subrange(0, 32);
        aead_opened(wrap_key(eph, x25519_shared(secret, eph)), blob.subrange(32, blob.len() as int), eph)
    }
}

/// Inverse of [`seal_for_recipient`] using the recipient's secret.
pub fn open_sealed(recipient_secret: &[u8; 32], blob: &[u8]) -> (r: Result<Vec<u8>, CryptoError>)
    ensures
        match r {
            Ok(p) => sealed_opened(recipient_secret@, blob@) == Some(p@),
            Err(e) => (blob@.len() < 72 && e is SealedBlobTooShort) || (blob@.len() >= 72 && e is Open
                && sealed_opened(recipient_secret@, blob@) is None),
        },
        r is Err ==> forall|m: Seq<u8>|
            #[trigger] sealed_to(blob@, recipient_secret@, m) ==> !within_aead_limit(m.len() as int),
        r matches Ok(p) ==> forall|m: Seq<u8>|
            #[trigger] sealed_to(blob@, recipient_secret@, m) && within_aead_limit(m.len() as int) ==> p@ == m,
        forall|m: Seq<u8>|
            #[trigger] sealed_to(blob@, recipient_secret@, m) && within_aead_limit(m.len() as int) ==> (r matches Ok(
                p,
            ) && p@ == m),
{
    if blob.len() < 72 {
        return Err(CryptoError::SealedBlobTooShort);
    }
    let eph_vec = copy_range(blob, 0, 32);
    let eph = array32(&eph_vec);
    let shared = x25519_dh(recipient_secret, &eph);
    let mut sym = match hkdf_expand_32(eph.as_slice(), shared.as_slice(), "audire-sync wrap v1".as_bytes()) {
        Some(k) => k,
        None => return Err(CryptoError::Open),
    };
    let rest = copy_range(blob, 32, blob.len());
    let r = aead_open(&sym, rest.as_slice(), eph.as_slice());
    proof {
        assert forall|m: Seq<u8>| #[trigger] sealed_to(blob@, recipient_secret@, m) implies aead_sealed(rest@, sym@, m, eph@) by {}
    }
    match r {
        Ok(p) => {
            wipe_key(&mut sym);
            Ok(p)
        },
        Err(CryptoError::AeadBlobTooShort) => Err(CryptoError::Open),
        Err(e) => Err(e),
    }
}

/// `hex` is the lower-case hex of a 32-byte recovery key under which
/// `blob` seals `kek`.
pub open spec fn recovery_envelope_of(hex: Seq<char>, blob: Seq<u8>, kek: Seq<u8>) -> bool {
    match hex_decode_chars(hex) {
        Some(rk) => {
            &&& rk.len() == 32
            &&& hex == hex_lower_chars(rk)
            &&& aead_sealed(blob, rk, kek, recovery_aad())
        },
        None => false,
    }
}

/// Wrap the KEK under a freshly minted recovery key. Returns
/// `(recovery_key_hex, wrapped_kek_blob)`.
pub fn mint_recovery_envelope(kek: &KekMaterial) -> (r: Result<(String, Vec<u8>), CryptoError>)
    ensures
        r matches Ok((hex, blob)) ==> recovery_envelope_of(hex@, blob@, kek.0@),
        r matches Err(e) ==> e is Rng,
{
    let recovery: [u8; 32] = match os_fill_array::<32>() {
        Some(a) => a,
        None => return Err(CryptoError::Rng),
    };
    let blob = match aead_seal(&recovery, kek.0.as_slice(), "audire-recovery v1".as_bytes()) {
        Ok(b) => b,
        Err(_) => return Err(CryptoError::Rng),
    };
    let hex = hex_encode(recovery.as_slice());
    proof {
        lemma_hex_round_trip(recovery@);
    }
    Ok((hex, blob))
}

/// What recovering a KEK from recovery text and a wrapped blob yields.
pub open spec fn recovered_kek(hex: Seq<char>, blob: Seq<u8>) -> Option<Seq<u8>> {
    match hex_decode_chars(trim_seq(hex)) {
        Some(rk) => if rk.len() != 32 {
            None
        } else {
            match aead_opened(rk, blob, recovery_aad()) {
                Some(p) => if p.len() == 32 { Some(p) } else { None },
                None => None,
            }
        },
        None => None,
    }
}

proof fn lemma_hex_is_trimmed(rk: Seq<u8>)
    ensures
        trim_seq(hex_lower_chars(rk)) == hex_lower_chars(rk),
{
    let h = hex_lower_chars(rk);
    lemma_hex_lower_len(rk);
    if h.len() > 0 {
        lemma_hex_lower_digits(rk, 0);
        lemma_hex_lower_digits(rk, h.len() - 1);
    }
}

/// Recover the KEK from the recovery key hex and the wrapped blob.
pub fn open_recovery_envelope(recovery_hex: &str, blob: &[u8]) -> (r: Result<KekMaterial, CryptoError>)
    ensures
        match r {
            Ok(k) => recovered_kek(recovery_hex@, blob@) == Some(k.0@),
            Err(_) => recovered_kek(recovery_hex@, blob@) is None,
        },
        r is Err ==> forall|m: Seq<u8>|
            #[trigger] recovery_envelope_of(recovery_hex@, blob@, m) ==> m.len() != 32,
        r matches Ok(k) ==> forall|m: Seq<u8>|
            #[trigger] recovery_envelope_of(recovery_hex@, blob@, m) && m.len() == 32 ==> k.0@ == m,
        match hex_decode_chars(trim_seq(recovery_hex@)) {
            None => r matches Err(CryptoError::RecoveryHex),
            Some(rk) => if rk.len() != 32 {
                r matches Err(CryptoError::RecoveryKeyLength)
            } else if blob@.len() < 40 {
                r matches Err(CryptoError::AeadBlobTooShort)
            } else {
                match aead_opened(rk, blob@, recovery_aad()) {
                    None => r matches Err(CryptoError::Open),
                    Some(p) => if p.len() != 32 {
                        r matches Err(CryptoError::RecoveredKekLength)
                    } else {
                        r is Ok
                    },
                }
            },
        },
{
    proof {
        if hex_decode_chars(recovery_hex@) is Some {
            let rk = hex_decode_chars(recovery_hex@).unwrap();
            if recovery_hex@ == hex_lower_chars(rk) {
                lemma_hex_is_trimmed(rk);
            }
        }
    }
    let t = trim(recovery_hex);
    let bytes = match hex_decode(t.as_str()) {
        Ok(b) => b,
        Err(_) => return Err(CryptoError::RecoveryHex),
    };
    if bytes.len() != 32 {
        return Err(CryptoError::RecoveryKeyLength);
    }
    let mut key = array32(&bytes);
    let pt = aead_open(&key, blob, "audire-recovery v1".as_bytes());
    let pt = match pt {
        Ok(p) => p,
        Err(e) => return Err(e),
    };
    wipe_key(&mut key);
    if pt.len() != 32 {
        return Err(CryptoError::RecoveredKekLength);
    }
    Ok(KekMaterial(array32(&pt)))
}

} // verus!
