//! A local, single-user secret store: named credential records kept in one
//! file, sealed with AES-256-GCM under a key derived from a master password.
//!
//! The crate holds the vault's logic: key derivation ([`key`]), the blob
//! format and its sealing and opening ([`vault`], over [`cipher`]), the
//! records and the operations on them ([`record`], over [`text`]), and the
//! decisions of an interactive session ([`session`]). Reading and writing the
//! file, prompting for passwords and turning the decrypted bytes into records
//! are left to the program built on top of it.
//!
//! # Limits
//!
//! - The key is one SHA-256 pass over the master password, without salt or
//!   stretching: it does not slow down an offline search for the password.
//! - A blob that does not open tells nothing of the reason: a wrong master
//!   password and a damaged file look the same, and a load treats both as an
//!   empty vault.
//! - Every change reads the whole vault and writes it anew. Nothing guards
//!   that cycle against a second process on the same file.

pub mod cipher;
pub mod key;
pub mod record;
pub mod session;
pub mod text;
pub mod vault;
