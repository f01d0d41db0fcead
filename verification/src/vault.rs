//! The vault file and the blob it holds: a fresh nonce followed by the
//! AES-256-GCM ciphertext and tag of a serialized record collection. The
//! blob has no header and no version.

use crate::cipher::{
    aes256_gcm_open, aes256_gcm_seal, bytes_of, fresh_nonce, gcm_opened, gcm_sealed, gcm_tag,
    KEY_LEN, MAX_PLAINTEXT_LEN, NONCE_LEN, TAG_LEN,
};
use vstd::prelude::*;
use vstd::slice::slice_to_vec;

verus! {

/// Name of the vault file in its directory, which is the user's home
/// directory.
pub const VAULT_FILE_NAME: &'static str = ".pass_vault";

/// The directory that holds the vault file where the user's home directory
/// cannot be found: the working directory.
pub const FALLBACK_DIR: &'static str = ".";

/// Bytes that a blob holds besides the ciphertext: the nonce in front of it
/// and the tag behind it.
pub const BLOB_OVERHEAD: usize = NONCE_LEN + TAG_LEN;

/// The blob that holds `plaintext` sealed under `key` and `nonce`.
pub open spec fn sealed_blob(key: Seq<u8>, nonce: Seq<u8>, plaintext: Seq<u8>) -> Seq<u8> {
    nonce + gcm_sealed(key, nonce, plaintext)
}

/// What `blob` opens to under `key`: nothing where it is too short to hold a
/// nonce, else what the cipher makes of the rest under the leading nonce.
pub open spec fn opened(blob: Seq<u8>, key: Seq<u8>) -> Option<Seq<u8>> {
    if blob.len() < NONCE_LEN {
        None
    } else {
        gcm_opened(key, blob.take(NONCE_LEN as int), blob.skip(NONCE_LEN as int))
    }
}

/// The last bytes of `blob`, where its tag stands.
pub open spec fn tag_of(blob: Seq<u8>) -> Seq<u8> {
    blob.skip(blob.len() - TAG_LEN)
}

/// The tag that the cipher computes under `key` for what stands in `blob`
/// before the tag: the leading nonce and the ciphertext behind it.
pub open spec fn expected_tag(blob: Seq<u8>, key: Seq<u8>) -> Seq<u8> {
    gcm_tag(
        key,
        blob.take(NONCE_LEN as int),
        blob.subrange(NONCE_LEN as int, blob.len() - TAG_LEN),
    )
}

/// Whether a plaintext of `len` bytes can be sealed into a blob: the cipher
/// accepts it, and the blob's length is one that a vector can have.
pub open spec fn sealable(len: nat) -> bool {
    len <= MAX_PLAINTEXT_LEN && len + BLOB_OVERHEAD <= isize::MAX
}

/// Tells whether a plaintext of `len` bytes can be handed to [`encrypt`].
pub fn is_sealable(len: usize) -> (ok: bool)
    ensures
        ok == sealable(len as nat),
{
    len as u64 <= MAX_PLAINTEXT_LEN && len <= isize::MAX as usize - BLOB_OVERHEAD
}

/// Joins a nonce and the sealed bytes that were made under it into a blob.
pub fn frame_blob(nonce: &[u8], sealed: Vec<u8>) -> (blob: Vec<u8>)
    ensures
        blob@ == nonce@ + sealed@,
{
    let mut sealed = sealed;
    let mut blob = slice_to_vec(nonce);
    blob.append(&mut sealed);
    blob
}

/// Parts a blob into its leading nonce and the sealed bytes behind it, or
/// gives `None` where the blob is shorter than a nonce.
pub fn split_blob(blob: &[u8]) -> (parts: Option<(&[u8], &[u8])>)
    ensures
        parts is None <==> blob@.len() < NONCE_LEN,
        parts matches Some((nonce, sealed)) ==> nonce@ == blob@.take(NONCE_LEN as int)
            && sealed@ == blob@.skip(NONCE_LEN as int),
{
    if blob.len() < NONCE_LEN {
        None
    } else {
        Some(blob.split_at(NONCE_LEN))
    }
}

/// A blob framed from a nonce and from sealed bytes that the cipher opens
/// under that nonce opens to the same plaintext.
pub proof fn lemma_framed_blob_opens(
    key: Seq<u8>,
    nonce: Seq<u8>,
    sealed: Seq<u8>,
    plaintext: Seq<u8>,
)
    requires
        nonce.len() == NONCE_LEN,
        gcm_opened(key, nonce, sealed) == Some(plaintext),
    ensures
        opened(nonce + sealed, key) == Some(plaintext),
{
    let blob = nonce + sealed;
    assert(blob.take(NONCE_LEN as int) =~= nonce);
    assert(blob.skip(NONCE_LEN as int) =~= sealed);
}

/// A blob that carries the expected tag and is then altered in its tag alone
/// no longer carries the tag expected of it.
pub proof fn lemma_altered_tag_is_unexpected(blob: Seq<u8>, altered: Seq<u8>, key: Seq<u8>)
    requires
        blob.len() >= BLOB_OVERHEAD,
        altered.len() == blob.len(),
        altered.take(blob.len() - TAG_LEN) == blob.take(blob.len() - TAG_LEN),
        altered != blob,
        tag_of(blob) == expected_tag(blob, key),
    ensures
        tag_of(altered) != expected_tag(altered, key),
{
    let cut = blob.len() - TAG_LEN;
    assert(altered.take(NONCE_LEN as int) =~= altered.take(cut).take(NONCE_LEN as int));
    assert(blob.take(NONCE_LEN as int) =~= blob.take(cut).take(NONCE_LEN as int));
    assert(altered.subrange(NONCE_LEN as int, cut) =~= altered.take(cut).skip(NONCE_LEN as int));
    assert(blob.subrange(NONCE_LEN as int, cut) =~= blob.take(cut).skip(NONCE_LEN as int));
    if tag_of(altered) == tag_of(blob) {
        assert(altered =~= altered.take(cut) + tag_of(altered));
        assert(blob =~= blob.take(cut) + tag_of(blob));
    }
}

/// Blobs sealed under different nonces differ, whatever the key and the
/// plaintext of each.
pub proof fn lemma_distinct_nonces_distinct_blobs(
    key_a: Seq<u8>,
    nonce_a: Seq<u8>,
    plaintext_a: Seq<u8>,
    key_b: Seq<u8>,
    nonce_b: Seq<u8>,
    plaintext_b: Seq<u8>,
)
    requires
        nonce_a.len() == NONCE_LEN,
        nonce_b.len() == NONCE_LEN,
        nonce_a != nonce_b,
    ensures
        sealed_blob(key_a, nonce_a, plaintext_a) != sealed_blob(key_b, nonce_b, plaintext_b),
{
    let blob_a = sealed_blob(key_a, nonce_a, plaintext_a);
    let blob_b = sealed_blob(key_b, nonce_b, plaintext_b);
    assert(blob_a.take(NONCE_LEN as int) =~= nonce_a);
    assert(blob_b.take(NONCE_LEN as int) =~= nonce_b);
}

/// Seals `plaintext` under `key` and the given nonce and frames the blob.
///
/// The nonce must not have been used with this key before: [`encrypt`] draws
/// a fresh one.
pub fn encrypt_with_nonce(
    plaintext: &[u8],
    key: &[u8; KEY_LEN],
    nonce: &[u8; NONCE_LEN],
) -> (blob: Vec<u8>)
    requires
        sealable(plaintext@.len()),
    ensures
        blob@ == sealed_blob(key@, nonce@, plaintext@),
        blob@.len() == plaintext@.len() + BLOB_OVERHEAD,
        tag_of(blob@) == expected_tag(blob@, key@),
        opened(blob@, key@) == Some(plaintext@),
{
    match aes256_gcm_seal(key, nonce, plaintext) {
        Some(sealed) => {
            proof {
                lemma_framed_blob_opens(key@, nonce@, sealed@, plaintext@);
                let framed = nonce@ + sealed@;
                let cut = framed.len() - TAG_LEN;
                assert(framed.take(NONCE_LEN as int) =~= nonce@);
                assert(tag_of(framed) =~= sealed@.skip(plaintext@.len() as int));
                assert(framed.subrange(NONCE_LEN as int, cut) =~= sealed@.take(
                    plaintext@.len() as int,
                ));
            }
            frame_blob(nonce, sealed)
        },
        None => unreached(),
    }
}

/// Seals `plaintext` under `key` and a nonce drawn for this call from the
/// operating system's random source, and frames the blob.
///
/// Whatever nonce was drawn, the blob starts with it and opens under `key` to
/// `plaintext`.
pub fn encrypt(plaintext: &[u8], key: &[u8; KEY_LEN]) -> (blob: Vec<u8>)
    requires
        sealable(plaintext@.len()),
    ensures
        blob@ == sealed_blob(key@, blob@.take(NONCE_LEN as int), plaintext@),
        blob@.len() == plaintext@.len() + BLOB_OVERHEAD,
        tag_of(blob@) == expected_tag(blob@, key@),
        opened(blob@, key@) == Some(plaintext@),
{
    let nonce = fresh_nonce();
    let blob = encrypt_with_nonce(plaintext, key, &nonce);
    assert(blob@.take(NONCE_LEN as int) =~= nonce@);
    blob
}

/// Opens a blob under `key`: the plaintext where the cipher accepts the
/// sealed bytes under the leading nonce, `None` where the blob is too short
/// or the cipher rejects it.
///
/// A blob that is too short for a nonce and a tag is never opened, nor one
/// whose last bytes are not the tag that the cipher computes for the rest.
pub fn decrypt_vault(data: &[u8], key: &[u8; KEY_LEN]) -> (plaintext: Option<Vec<u8>>)
    ensures
        bytes_of(plaintext) == opened(data@, key@),
        data@.len() < BLOB_OVERHEAD ==> plaintext is None,
        plaintext matches Some(bytes) ==> bytes@.len() + BLOB_OVERHEAD == data@.len(),
        plaintext is Some ==> tag_of(data@) == expected_tag(data@, key@),
{
    match split_blob(data) {
        Some((nonce, sealed)) => {
            let plaintext = aes256_gcm_open(key, nonce, sealed);
            proof {
                if plaintext is Some {
                    let cut = sealed@.len() - TAG_LEN;
                    assert(tag_of(data@) =~= sealed@.skip(cut));
                    assert(data@.subrange(NONCE_LEN as int, data@.len() - TAG_LEN) =~= sealed@.take(
                        cut,
                    ));
                }
            }
            plaintext
        },
        None => None,
    }
}

/// Opens what was read from the vault file, if there was a file: no file
/// gives no plaintext, and the key is not used.
pub fn load_vault(contents: Option<&[u8]>, key: &[u8; KEY_LEN]) -> (plaintext: Option<Vec<u8>>)
    ensures
        contents is None ==> plaintext is None,
        contents matches Some(data) ==> bytes_of(plaintext) == opened(data@, key@),
{
    match contents {
        Some(data) => decrypt_vault(data, key),
        None => None,
    }
}

} // verus!
