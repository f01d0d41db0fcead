use pass_vault::key::pass_to_key;
use sha2::{Digest, Sha256};

fn hex(bytes: &[u8]) -> String {
    let mut out = String::new();
    for byte in bytes {
        out.push_str(&format!("{:02x}", byte));
    }
    out
}

#[test]
fn key_of_the_empty_password_is_the_digest_of_nothing() {
    let key = pass_to_key("");
    assert_eq!(
        hex(&key),
        "e3b0c44298fc1c149afbf4c8996fb92427ae41e4649b934ca495991b7852b855"
    );
}

#[test]
fn key_of_abc_is_its_sha256_digest() {
    let key = pass_to_key("abc");
    assert_eq!(
        hex(&key),
        "ba7816bf8f01cfea414140de5dae2223b00361a396177a9cb410ff61f20015ad"
    );
}

#[test]
fn key_has_thirty_two_bytes() {
    assert_eq!(pass_to_key("correct horse battery staple").len(), 32);
}

#[test]
fn key_derivation_is_deterministic() {
    let first = pass_to_key("hunter2");
    let second = pass_to_key("hunter2");
    assert_eq!(first, second);
    assert_eq!(pass_to_key(""), pass_to_key(""));
}

#[test]
fn different_passwords_derive_different_keys() {
    assert_ne!(pass_to_key("hunter2"), pass_to_key("hunter3"));
    assert_ne!(pass_to_key("a"), pass_to_key("A"));
    assert_ne!(pass_to_key(""), pass_to_key(" "));
}

#[test]
fn key_hashes_the_utf8_bytes_of_the_password() {
    let password = "p\u{e4}ssw\u{f6}rd \u{1f511}";
    let expected: [u8; 32] = Sha256::digest(password.as_bytes()).into();
    assert_eq!(pass_to_key(password), expected);
    let two_bytes = pass_to_key("\u{e9}");
    let digest_of_c3_a9: [u8; 32] = Sha256::digest([0xc3u8, 0xa9u8]).into();
    assert_eq!(two_bytes, digest_of_c3_a9);
}
