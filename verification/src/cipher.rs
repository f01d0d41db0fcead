//! The AES-256-GCM primitive and the random source, as the vault uses them.
//!
//! Nothing in this module is proved: it states what the `aes-gcm` and `rand`
//! crates are trusted to do, in terms that the rest of the crate builds on.

use aes_gcm::aead::{Aead, KeyInit, OsRng};
use aes_gcm::{Aes256Gcm, Nonce};
use rand::RngCore;
use vstd::prelude::*;

verus! {

/// Length in bytes of an AES-256 key.
pub const KEY_LEN: usize = 32;

/// Length in bytes of a GCM nonce.
pub const NONCE_LEN: usize = 12;

/// Length in bytes of the authentication tag that follows a ciphertext.
pub const TAG_LEN: usize = 16;

/// The longest plaintext, in bytes, that AES-GCM accepts.
pub const MAX_PLAINTEXT_LEN: u64 = 68_719_476_736;

/// The ciphertext followed by its tag that AES-256-GCM computes for
/// `plaintext` under `key` and `nonce`, with no associated data.
pub uninterp spec fn gcm_sealed(key: Seq<u8>, nonce: Seq<u8>, plaintext: Seq<u8>) -> Seq<u8>;

/// The tag with which AES-256-GCM authenticates the ciphertext `body` under
/// `key` and `nonce`, with no associated data.
pub uninterp spec fn gcm_tag(key: Seq<u8>, nonce: Seq<u8>, body: Seq<u8>) -> Seq<u8>;

/// The plaintext that AES-256-GCM recovers from `sealed` (a ciphertext
/// followed by its tag) under `key` and `nonce`, with no associated data, or
/// `None` where it rejects the input.
pub uninterp spec fn gcm_opened(key: Seq<u8>, nonce: Seq<u8>, sealed: Seq<u8>) -> Option<Seq<u8>>;

/// The bytes of a buffer that may be missing.
pub open spec fn bytes_of(buffer: Option<Vec<u8>>) -> Option<Seq<u8>> {
    match buffer {
        Some(bytes) => Some(bytes@),
        None => None,
    }
}

/// Seals `plaintext` with `Aead::encrypt` of an `Aes256Gcm` made by
/// `KeyInit::new_from_slice`, under the nonce read by `Nonce::from_slice`.
///
/// Trusted: the cipher refuses exactly the plaintexts longer than
/// [`MAX_PLAINTEXT_LEN`]; what it returns is a function of the three
/// arguments alone: a ciphertext as long as the plaintext, followed by the
/// 16-byte tag that the cipher computes for that ciphertext; and opening the
/// result under the same key and nonce gives the plaintext back. The nonce
/// must have twelve bytes, and the sealed bytes a length that a vector can
/// have: the call panics otherwise.
#[verifier::external_body]
pub(crate) fn aes256_gcm_seal(
    key: &[u8; KEY_LEN],
    nonce: &[u8],
    plaintext: &[u8],
) -> (sealed: Option<Vec<u8>>)
    requires
        nonce@.len() == NONCE_LEN,
        plaintext@.len() + TAG_LEN <= isize::MAX,
    ensures
        sealed is Some <==> plaintext@.len() <= MAX_PLAINTEXT_LEN,
        sealed matches Some(bytes) ==> bytes@ == gcm_sealed(key@, nonce@, plaintext@),
        sealed matches Some(bytes) ==> bytes@.len() == plaintext@.len() + TAG_LEN,
        sealed matches Some(bytes) ==> bytes@.skip(plaintext@.len() as int) == gcm_tag(
            key@,
            nonce@,
            bytes@.take(plaintext@.len() as int),
        ),
        sealed matches Some(bytes) ==> gcm_opened(key@, nonce@, bytes@) == Some(plaintext@),
{
    let cipher = Aes256Gcm::new_from_slice(key).ok()?;
    cipher.encrypt(Nonce::from_slice(nonce), plaintext).ok()
}

/// Opens `sealed` with `Aead::decrypt` of an `Aes256Gcm` made by
/// `KeyInit::new_from_slice`, under the nonce read by `Nonce::from_slice`.
///
/// Trusted: the result is a function of the three arguments alone; an input
/// too short to hold a tag is rejected; an input that is accepted ends with
/// the 16-byte tag that the cipher computes for the bytes before it, and the
/// recovered plaintext is as long as those bytes. Nothing is claimed of which
/// inputs the cipher accepts beyond that. The nonce must have twelve bytes:
/// the call panics otherwise.
#[verifier::external_body]
pub(crate) fn aes256_gcm_open(
    key: &[u8; KEY_LEN],
    nonce: &[u8],
    sealed: &[u8],
) -> (plaintext: Option<Vec<u8>>)
    requires
        nonce@.len() == NONCE_LEN,
    ensures
        bytes_of(plaintext) == gcm_opened(key@, nonce@, sealed@),
        sealed@.len() < TAG_LEN ==> plaintext is None,
        plaintext matches Some(bytes) ==> bytes@.len() + TAG_LEN == sealed@.len(),
        plaintext is Some ==> sealed@.skip(sealed@.len() - TAG_LEN) == gcm_tag(
            key@,
            nonce@,
            sealed@.take(sealed@.len() - TAG_LEN),
        ),
{
    let cipher = Aes256Gcm::new_from_slice(key).ok()?;
    cipher.decrypt(Nonce::from_slice(nonce), sealed).ok()
}

/// Draws twelve bytes from the operating system's random source with
/// `RngCore::fill_bytes` of `OsRng`.
///
/// Trusted, and nothing is promised of the bytes: two calls may return
/// anything. The call panics where the source fails, and no weaker source
/// takes its place.
#[verifier::external_body]
pub(crate) fn fresh_nonce() -> [u8; NONCE_LEN] {
    let mut nonce = [0u8; NONCE_LEN];
    OsRng.fill_bytes(&mut nonce);
    nonce
}

} // verus!
