//! Key derivation: the vault key is the SHA-256 digest of the master
//! password's UTF-8 bytes. There is no salt and no stretching.

use crate::cipher::KEY_LEN;
use sha2::{Digest, Sha256};
use vstd::prelude::*;
use vstd::utf8::{decode_utf8, encode_utf8, encode_utf8_decode_utf8};

verus! {

/// The SHA-256 digest of `data`.
pub uninterp spec fn sha256(data: Seq<u8>) -> Seq<u8>;

/// Hashes `data` with `Sha256::new`, `Digest::update` and `Digest::finalize`.
///
/// Trusted: the 32 bytes returned are the SHA-256 digest, a function of the
/// input bytes alone.
#[verifier::external_body]
pub(crate) fn sha256_digest(data: &[u8]) -> (digest: [u8; 32])
    ensures
        digest@ == sha256(data@),
{
    let mut hasher = Sha256::new();
    hasher.update(data);
    hasher.finalize().into()
}

/// The key that a master password derives.
pub open spec fn derived_key(master: Seq<char>) -> Seq<u8> {
    sha256(encode_utf8(master))
}

/// Whether two byte strings are a SHA-256 collision: different inputs with
/// one digest.
pub open spec fn sha256_collision(a: Seq<u8>, b: Seq<u8>) -> bool {
    a != b && sha256(a) == sha256(b)
}

/// Derives the 32-byte vault key from the master password. Every password
/// derives a key, the empty one too.
pub fn pass_to_key(master: &str) -> (key: [u8; KEY_LEN])
    ensures
        key@ == derived_key(master@),
{
    sha256_digest(master.as_bytes())
}

/// Key derivation is deterministic: equal passwords derive equal keys.
pub proof fn lemma_same_password_same_key(first: Seq<char>, second: Seq<char>)
    requires
        first =~= second,
    ensures
        derived_key(first) == derived_key(second),
{
}

/// Different passwords derive different keys, unless their UTF-8 encodings
/// are a SHA-256 collision.
pub proof fn lemma_distinct_passwords_distinct_keys(first: Seq<char>, second: Seq<char>)
    requires
        first != second,
        !sha256_collision(encode_utf8(first), encode_utf8(second)),
    ensures
        derived_key(first) != derived_key(second),
{
    encode_utf8_decode_utf8(first);
    encode_utf8_decode_utf8(second);
    assert(decode_utf8(encode_utf8(first)) != decode_utf8(encode_utf8(second)));
}

} // verus!
