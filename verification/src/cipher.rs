//! Authenticated encryption of an envelope's payload with AES-256-GCM.
//!
//! Only the payload is transformed. The descriptor and the metadata stay in
//! the clear and are not authenticated. The key and the nonce come from the
//! caller with every call; using a nonce twice under one key is the caller's
//! hazard.

use vstd::prelude::*;
use vstd::pervasive::unreached;
use aes_gcm::aead::Aead;
use aes_gcm::{Aes256Gcm, KeyInit, Nonce};
use crate::envelope::{Envelope, FCPayload};
use crate::error::CipherError;

verus! {

/// Length of an AES-256 key in bytes.
pub const KEY_LEN: usize = 32;

/// Length of a GCM nonce in bytes.
pub const NONCE_LEN: usize = 12;

/// Length of the authentication tag that follows the ciphertext.
pub const TAG_LEN: usize = 16;

/// The longest plaintext, in bytes, that `aes_gcm` seals in one call: 2^36.
pub const MAX_PLAINTEXT_LEN: u64 = 0x10_0000_0000;

/// The error of the `aead` crate, which `aes_gcm` exports as
/// `aes_gcm::Error`. It carries nothing: it only says that sealing or opening
/// failed.
#[verifier::external_type_specification]
#[verifier::external_body]
pub struct ExAeadError(aes_gcm::Error);

/// The ciphertext followed by the tag that `Aes256Gcm` gives for a plaintext
/// under a key and a nonce, with no associated data.
pub uninterp spec fn aes256_gcm_seal(key: Seq<u8>, nonce: Seq<u8>, plaintext: Seq<u8>) -> Seq<u8>;

/// The plaintext that `Aes256Gcm` gives for a ciphertext with its tag under a
/// key and a nonce, with no associated data; `None` where it refuses.
pub uninterp spec fn aes256_gcm_open(key: Seq<u8>, nonce: Seq<u8>, sealed: Seq<u8>) -> Option<
    Seq<u8>,
>;

/// The key and the nonce have the lengths that AES-256-GCM takes.
pub open spec fn key_material_ok(key: Seq<u8>, nonce: Seq<u8>) -> bool {
    key.len() == KEY_LEN && nonce.len() == NONCE_LEN
}

/// `sealed` is what the cipher makes of `plaintext`: the named sealing, 16
/// bytes longer than the plaintext, which the cipher opens to the plaintext
/// again.
pub open spec fn seals(sealed: Seq<u8>, plaintext: Seq<u8>, key: Seq<u8>, nonce: Seq<u8>) -> bool {
    &&& sealed == aes256_gcm_seal(key, nonce, plaintext)
    &&& sealed.len() == plaintext.len() + TAG_LEN
    &&& aes256_gcm_open(key, nonce, sealed) == Some(plaintext)
}

/// What decrypting a payload gives: `InvalidKeyMaterial` for a key or a nonce
/// of the wrong length; `AuthenticationFailed` for a payload too short to
/// hold a tag and for one that the cipher refuses; else the plaintext.
pub open spec fn decrypt_spec(payload: Seq<u8>, key: Seq<u8>, nonce: Seq<u8>) -> Result<
    Seq<u8>,
    CipherError,
> {
    if !key_material_ok(key, nonce) {
        Err(CipherError::InvalidKeyMaterial)
    } else if payload.len() < TAG_LEN {
        Err(CipherError::AuthenticationFailed)
    } else {
        match aes256_gcm_open(key, nonce, payload) {
            Some(plaintext) => Ok(plaintext),
            None => Err(CipherError::AuthenticationFailed),
        }
    }
}

/// Calls `Aead::encrypt` of `aes_gcm::Aes256Gcm`, keyed by
/// `KeyInit::new_from_slice`, with the nonce taken by `Nonce::from_slice`
/// and no associated data.
///
/// Trusted: the call fails exactly on a plaintext of more than 2^36 bytes.
/// Otherwise it returns the named sealing, which is the plaintext's length
/// plus a 16-byte tag, and which `Aead::decrypt` opens to the plaintext again
/// under the same key and nonce.
#[verifier::external_body]
fn aes256_gcm_encrypt(key: &[u8], nonce: &[u8], plaintext: &[u8]) -> (out: Result<
    Vec<u8>,
    aes_gcm::Error,
>)
    requires
        key@.len() == KEY_LEN,
        nonce@.len() == NONCE_LEN,
    ensures
        out is Ok <==> plaintext@.len() <= MAX_PLAINTEXT_LEN,
        out matches Ok(sealed) ==> {
            &&& sealed@ == aes256_gcm_seal(key@, nonce@, plaintext@)
            &&& sealed@.len() == plaintext@.len() + TAG_LEN
            &&& aes256_gcm_open(key@, nonce@, sealed@) == Some(plaintext@)
        },
{
    match Aes256Gcm::new_from_slice(key) {
        Ok(cipher) => cipher.encrypt(Nonce::from_slice(nonce), plaintext),
        Err(_) => Err(aes_gcm::Error),
    }
}

/// Calls `Aead::decrypt` of `aes_gcm::Aes256Gcm`, keyed by
/// `KeyInit::new_from_slice`, with the nonce taken by `Nonce::from_slice`
/// and no associated data.
///
/// Trusted: the call returns the named opening, and a plaintext that comes
/// out is 16 bytes shorter than what went in.
#[verifier::external_body]
fn aes256_gcm_decrypt(key: &[u8], nonce: &[u8], sealed: &[u8]) -> (out: Result<
    Vec<u8>,
    aes_gcm::Error,
>)
    requires
        key@.len() == KEY_LEN,
        nonce@.len() == NONCE_LEN,
    ensures
        match out {
            Ok(plaintext) => {
                &&& aes256_gcm_open(key@, nonce@, sealed@) == Some(plaintext@)
                &&& plaintext@.len() + TAG_LEN == sealed@.len()
            },
            Err(_) => aes256_gcm_open(key@, nonce@, sealed@) is None,
        },
{
    match Aes256Gcm::new_from_slice(key) {
        Ok(cipher) => cipher.decrypt(Nonce::from_slice(nonce), sealed),
        Err(_) => Err(aes_gcm::Error),
    }
}

/// Accepts a key of 32 bytes with a nonce of 12 bytes, and nothing else.
pub fn check_key_material(key: &[u8], nonce: &[u8]) -> (res: Result<(), CipherError>)
    ensures
        key_material_ok(key@, nonce@) ==> res == Ok::<(), CipherError>(()),
        !key_material_ok(key@, nonce@) ==> res == Err::<(), CipherError>(
            CipherError::InvalidKeyMaterial,
        ),
{
    if key.len() == KEY_LEN && nonce.len() == NONCE_LEN {
        Ok(())
    } else {
        Err(CipherError::InvalidKeyMaterial)
    }
}

/// Turns what the cipher said of a sealed payload into the library's terms:
/// the plaintext as it came, or `AuthenticationFailed` for any refusal.
pub fn authenticated(outcome: Result<Vec<u8>, aes_gcm::Error>) -> (res: Result<
    Vec<u8>,
    CipherError,
>)
    ensures
        match outcome {
            Ok(plaintext) => res == Ok::<Vec<u8>, CipherError>(plaintext),
            Err(_) => res == Err::<Vec<u8>, CipherError>(CipherError::AuthenticationFailed),
        },
{
    match outcome {
        Ok(plaintext) => Ok(plaintext),
        Err(_) => Err(CipherError::AuthenticationFailed),
    }
}

impl FCPayload {
    /// Replaces the payload with its AES-256-GCM ciphertext followed by the
    /// tag, under `key` and `nonce` and with no associated data.
    ///
    /// Fails with `InvalidKeyMaterial`, leaving the envelope as it was, unless
    /// the key is 32 bytes and the nonce 12 bytes long. The descriptor and the
    /// metadata are never touched.
    ///
    /// The payload must be no longer than `MAX_PLAINTEXT_LEN`: the cipher
    /// seals no more in one call.
    pub fn encrypt_payload(&mut self, key: &[u8], nonce: &[u8]) -> (res: Result<(), CipherError>)
        requires
            old(self)@.payload.len() <= MAX_PLAINTEXT_LEN,
        ensures
            final(self)@.descriptor == old(self)@.descriptor,
            final(self)@.metadata == old(self)@.metadata,
            match res {
                Ok(_) => {
                    &&& key_material_ok(key@, nonce@)
                    &&& seals(final(self)@.payload, old(self)@.payload, key@, nonce@)
                    &&& decrypt_spec(final(self)@.payload, key@, nonce@) == Ok::<
                        Seq<u8>,
                        CipherError,
                    >(old(self)@.payload)
                },
                Err(e) => {
                    &&& !key_material_ok(key@, nonce@)
                    &&& e == CipherError::InvalidKeyMaterial
                    &&& final(self)@.payload == old(self)@.payload
                },
            },
    {
        if let Err(e) = check_key_material(key, nonce) {
            return Err(e);
        }
        let sealed = match aes256_gcm_encrypt(key, nonce, self.decode_raw_payload()) {
            Ok(sealed) => sealed,
            Err(_) => unreached(),
        };
        self.insert_raw_payload(sealed);
        Ok(())
    }

    /// Decrypts the payload under `key` and `nonce` and returns the
    /// plaintext. The envelope is left as it is.
    ///
    /// Fails with `InvalidKeyMaterial` unless the key is 32 bytes and the
    /// nonce 12 bytes long, and with `AuthenticationFailed` where the cipher
    /// refuses the payload: the tag does not verify, so the payload was
    /// altered or the key or the nonce is wrong. A payload shorter than the
    /// tag is always refused.
    pub fn decode_encrypted_payload(&self, key: &[u8], nonce: &[u8]) -> (res: Result<
        Vec<u8>,
        CipherError,
    >)
        ensures
            match res {
                Ok(plaintext) => {
                    &&& decrypt_spec(self@.payload, key@, nonce@) == Ok::<Seq<u8>, CipherError>(
                        plaintext@,
                    )
                    &&& plaintext@.len() + TAG_LEN == self@.payload.len()
                },
                Err(e) => decrypt_spec(self@.payload, key@, nonce@) == Err::<Seq<u8>, CipherError>(
                    e,
                ),
            },
    {
        if let Err(e) = check_key_material(key, nonce) {
            return Err(e);
        }
        authenticated(aes256_gcm_decrypt(key, nonce, self.decode_raw_payload()))
    }
}

/// Decryption inverts encryption: under the key and nonce that sealed a
/// payload, decrypting the sealed payload gives the plaintext back.
pub proof fn lemma_decrypt_inverts_encrypt(
    plaintext: Seq<u8>,
    sealed: Seq<u8>,
    key: Seq<u8>,
    nonce: Seq<u8>,
)
    requires
        key_material_ok(key, nonce),
        seals(sealed, plaintext, key, nonce),
    ensures
        decrypt_spec(sealed, key, nonce) == Ok::<Seq<u8>, CipherError>(plaintext),
{
}

} // verus!
