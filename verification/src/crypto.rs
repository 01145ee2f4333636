//! Key derivation, salt generation, and the seekable stream cipher.
//!
//! The cipher XORs data with a keystream addressable at any byte offset, so
//! one operation both encrypts and decrypts. The keystream and the derived
//! key are named by uninterpreted spec functions: their values are fixed by
//! the outside primitives, and every contract in the crate speaks of those
//! names.
//!
//! One hard limit runs through the crate: the IETF ChaCha20 variant that the
//! file format's fixed 12-byte nonce selects counts blocks in 32 bits, so
//! its keystream ends after 2^38 bytes. Every executable contract therefore
//! keeps offsets below [`MAX_KEYSTREAM_POS`] (about 256 GiB of plaintext);
//! the laws over the mathematical keystream hold at every offset.

use vstd::prelude::*;
use vstd::string::StringSliceAdditionalSpecFns;

use chacha20::cipher::{KeyIvInit, StreamCipher, StreamCipherSeek};
use chacha20::ChaCha20;

use argon2::Argon2;

use rand::Rng;

verus! {

/// Length in bytes of the unencrypted salt header at the start of every
/// encrypted file.
pub const SALT_LEN: usize = 16;

/// Length in bytes of a derived encryption key.
pub const KEY_LEN: usize = 32;

/// Largest keystream position the cipher accepts: a safe bound under the
/// 32-bit block counter of the IETF ChaCha20 variant (2^38 bytes of
/// keystream, minus slack for the final blocks).
pub const MAX_KEYSTREAM_POS: u64 = 0x3F_FFFF_FF00;

/// Keystream byte at position `off` for the given 32-byte key (with the
/// crate's fixed nonce). Fixed by the ChaCha20 primitive; a function of the
/// key and the offset alone.
pub uninterp spec fn keystream_byte(key: Seq<u8>, off: int) -> u8;

/// The 32-byte key that the password-hashing primitive derives from a
/// password and a 16-byte salt. Deterministic in its two arguments.
pub uninterp spec fn derived_key(password: Seq<char>, salt: Seq<u8>) -> Seq<u8>;

/// What applying the keystream at `offset` does to a byte sequence: every
/// byte is XORed with its own keystream byte.
pub open spec fn apply_spec(data: Seq<u8>, offset: int, key: Seq<u8>) -> Seq<u8> {
    Seq::new(data.len(), |i: int| data[i] ^ keystream_byte(key, offset + i))
}

/// Relies on argon2's `Argon2::default().hash_password_into`: a deterministic
/// memory-hard function of (password, salt) filling the 32-byte output.
/// Fails only if its memory arena cannot be allocated, a fatal environment
/// error on which it panics, as there is no meaningful recovery.
#[verifier::external_body]
pub fn derive_key(password: &str, salt: &[u8]) -> (key: [u8; 32])
    requires
        salt@.len() == SALT_LEN,
        password.spec_bytes().len() <= 0xFFFF_FFFF,
    ensures
        key@ == derived_key(password@, salt@),
{
    let mut key = [0u8; 32];
    let argon2 = Argon2::default();
    argon2
        .hash_password_into(password.as_bytes(), salt, &mut key)
        .expect("key derivation could not allocate its memory arena");
    key
}

/// Relies on rand's `rng().fill_bytes`: fills the buffer from a
/// cryptographically secure generator. Nothing is promised of the value.
#[verifier::external_body]
pub fn generate_salt() -> (salt: [u8; 16])
{
    let mut salt = [0u8; 16];
    rand::rng().fill_bytes(&mut salt);
    salt
}

/// Relies on chacha20's `ChaCha20` (IETF variant) under the crate's fixed
/// nonce: after `seek(offset)`, `apply_keystream` XORs the buffer with
/// keystream bytes `offset..offset + len`, a function of the key and the
/// offset alone.
#[verifier::external_body]
pub fn encrypt_decrypt_at_offset(data: &mut Vec<u8>, offset: u64, key: &[u8; 32])
    requires
        offset + old(data)@.len() <= MAX_KEYSTREAM_POS,
    ensures
        final(data)@ == apply_spec(old(data)@, offset as int, key@),
        forall|i: int| 0 <= i < old(data)@.len() ==>
            final(data)@[i] == (old(data)@[i] ^ keystream_byte(key@, offset + i)),
{
    let mut cipher = ChaCha20::new(key.into(), b"unique-vicli".into());
    cipher.seek(offset);
    cipher.apply_keystream(data.as_mut_slice());
}

/// XORing twice with the same byte gives the original back.
proof fn lemma_xor_involution(x: u8, k: u8)
    ensures
        (x ^ k) ^ k == x,
{
    assert((x ^ k) ^ k == x) by (bit_vector);
}

/// Law: applying the keystream at one offset with one key is an involution —
/// a second application restores every buffer exactly, which is why a single
/// operation serves as both encryption and decryption.
pub proof fn lemma_apply_involution(data: Seq<u8>, offset: int, key: Seq<u8>)
    ensures
        apply_spec(apply_spec(data, offset, key), offset, key) == data,
{
    let once = apply_spec(data, offset, key);
    let twice = apply_spec(once, offset, key);
    assert forall|i: int| 0 <= i < data.len() implies twice[i] == data[i] by {
        lemma_xor_involution(data[i], keystream_byte(key, offset + i));
    }
    assert(twice =~= data);
}

/// Applying the keystream to a concatenation splits into applying it to each
/// part, the second at the advanced offset: processing a stream in chunks at
/// running offsets equals processing it whole.
pub proof fn lemma_apply_concat(a: Seq<u8>, b: Seq<u8>, offset: int, key: Seq<u8>)
    ensures
        apply_spec(a + b, offset, key)
            == apply_spec(a, offset, key) + apply_spec(b, offset + a.len(), key),
{
    assert(apply_spec(a + b, offset, key)
        =~= apply_spec(a, offset, key) + apply_spec(b, offset + a.len(), key));
}

/// A subrange of a keystream application is the keystream applied to the
/// subrange at the advanced offset: a byte range of a ciphertext can be
/// decrypted on its own.
pub proof fn lemma_apply_subrange(data: Seq<u8>, offset: int, key: Seq<u8>, i: int, j: int)
    requires
        0 <= i <= j <= data.len(),
    ensures
        apply_spec(data, offset, key).subrange(i, j)
            == apply_spec(data.subrange(i, j), offset + i, key),
{
    assert(apply_spec(data, offset, key).subrange(i, j)
        =~= apply_spec(data.subrange(i, j), offset + i, key));
}

} // verus!
