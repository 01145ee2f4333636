//! Password-based encryption at rest for a single media file, plus the pure
//! logic of a loopback HTTP server that decrypts requested byte ranges on
//! demand.
//!
//! An encrypted file is a 16-byte random salt followed by the ciphertext;
//! ciphertext byte `i` is plaintext byte `i` XORed with keystream byte `i`.
//! Everything that decides or computes is verified here; the surrounding
//! process (file and socket I/O, task spawning) lives outside the library and
//! hands plain values in and out.

pub mod config;
pub mod crypto;
pub mod digits;
pub mod encoder;
pub mod lifecycle;
pub mod pipeline;
pub mod server;
