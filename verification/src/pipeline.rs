//! The batch encrypt/decrypt pipeline: one key derivation, then a file
//! streamed through the cipher in fixed chunks at running plaintext offsets,
//! with integer progress reporting.
//!
//! The I/O loop around a job lives outside the library; it hands each chunk
//! it read to [`BatchJob::process_chunk`] and writes the transformed bytes
//! out, emitting whatever progress value the job returns.

use vstd::prelude::*;
use vstd::slice::{slice_subrange, slice_to_vec};
use vstd::string::StringSliceAdditionalSpecFns;

use crate::crypto::{
    apply_spec, derive_key, derived_key, encrypt_decrypt_at_offset, generate_salt,
    lemma_apply_concat, lemma_apply_involution, MAX_KEYSTREAM_POS, SALT_LEN,
};

verus! {

/// Size in bytes of one pipeline chunk: memory use of a job is bounded by
/// this, whatever the file size.
pub const CHUNK_SIZE: usize = 65536;

/// Percentage of a job that is complete after `done` of `total` bytes,
/// as an integer in `0 ..= 100`. A zero-byte job counts as complete.
pub open spec fn progress_of(done: int, total: int) -> int {
    if total <= 0 {
        100
    } else {
        done * 100 / total
    }
}

/// Whether a progress value is reported once `offset` bytes of `total` are
/// done: near each whole mebibyte boundary, and always at the very end.
pub open spec fn emit_point(offset: int, total: int) -> bool {
    offset % 0x100000 < 0x10000 || offset == total
}

/// The bytes on disk for a plaintext encrypted under `salt` and `password`:
/// the salt in the clear, then the plaintext XORed with the keystream of the
/// derived key, keyed by plaintext offset.
pub open spec fn encrypted_file_spec(plain: Seq<u8>, salt: Seq<u8>, password: Seq<char>) -> Seq<u8> {
    salt + apply_spec(plain, 0, derived_key(password, salt))
}

/// The plaintext recovered from an encrypted file under `password`: the
/// body past the salt header, XORed with the keystream of the key derived
/// from the password and that header.
pub open spec fn decrypted_file_spec(file: Seq<u8>, password: Seq<char>) -> Seq<u8> {
    apply_spec(file.skip(SALT_LEN as int), 0, derived_key(password, file.take(SALT_LEN as int)))
}

/// Law: decrypting what was encrypted under the same password restores the
/// plaintext exactly, and the encrypted file is the plaintext plus the
/// 16-byte header.
pub proof fn lemma_round_trip(plain: Seq<u8>, salt: Seq<u8>, password: Seq<char>)
    requires
        salt.len() == SALT_LEN,
    ensures
        decrypted_file_spec(encrypted_file_spec(plain, salt, password), password) == plain,
        encrypted_file_spec(plain, salt, password).len() == plain.len() + SALT_LEN,
{
    let key = derived_key(password, salt);
    let file = encrypted_file_spec(plain, salt, password);
    assert(file.take(SALT_LEN as int) =~= salt);
    assert(file.skip(SALT_LEN as int) =~= apply_spec(plain, 0, key));
    lemma_apply_involution(plain, 0, key);
}

/// Law: progress never decreases as a job advances.
pub proof fn lemma_progress_monotone(d1: int, d2: int, total: int)
    requires
        0 <= d1 <= d2 <= total,
    ensures
        progress_of(d1, total) <= progress_of(d2, total),
{
    if total > 0 {
        assert(d1 * 100 <= d2 * 100) by (nonlinear_arith)
            requires d1 <= d2;
        vstd::arithmetic::div_mod::lemma_div_is_ordered(d1 * 100, d2 * 100, total);
    }
}

/// Law: a finished job reports exactly 100, a zero-byte job included.
pub proof fn lemma_progress_completes(total: int)
    requires
        total >= 0,
    ensures
        progress_of(total, total) == 100,
{
    if total > 0 {
        vstd::arithmetic::div_mod::lemma_div_by_multiple(100, total);
    }
}

/// Progress values stay within `0 ..= 100`.
pub proof fn lemma_progress_bounds(done: int, total: int)
    requires
        0 <= done <= total,
    ensures
        0 <= progress_of(done, total) <= 100,
{
    if total > 0 {
        vstd::arithmetic::div_mod::lemma_div_pos_is_pos(done * 100, total);
        assert(done * 100 >= 0) by (nonlinear_arith)
            requires done >= 0;
        lemma_progress_monotone(done, total, total);
        lemma_progress_completes(total);
    }
}

/// Computes the progress percentage reported after `done` of `total` bytes.
pub fn progress_percent(done: u64, total: u64) -> (p: u64)
    requires
        done <= total,
    ensures
        p == progress_of(done as int, total as int),
        p <= 100,
{
    if total == 0 {
        100
    } else {
        let wide: u128 = (done as u128) * 100 / (total as u128);
        proof {
            assert(done * 100 <= total * 100) by (nonlinear_arith)
                requires done <= total;
            vstd::arithmetic::div_mod::lemma_div_is_ordered(
                done as int * 100, total as int * 100, total as int);
            vstd::arithmetic::div_mod::lemma_div_by_multiple(100, total as int);
            vstd::arithmetic::div_mod::lemma_div_pos_is_pos(done as int * 100, total as int);
            assert(done as int * 100 >= 0) by (nonlinear_arith);
        }
        wide as u64
    }
}

/// Decides whether to report progress after `offset` of `total` bytes.
pub fn should_emit_progress(offset: u64, total: u64) -> (b: bool)
    ensures
        b == emit_point(offset as int, total as int),
{
    offset % 0x100000 < 0x10000 || offset == total
}

/// One batch encrypt or decrypt job: the derived key, how far it has come,
/// and how much there is to do. Offsets count plaintext bytes, so the same
/// job drives both directions of the cipher.
pub struct BatchJob {
    /// Key derived once for this job.
    pub key: [u8; 32],
    /// Plaintext offset of the next chunk.
    pub offset: u64,
    /// Total number of bytes the job will process.
    pub total: u64,
}

impl BatchJob {
    /// A job is sound while its position is inside the file and the whole
    /// file is addressable by the cipher's keystream.
    pub open spec fn wf(&self) -> bool {
        self.offset <= self.total && self.total <= MAX_KEYSTREAM_POS
    }

    /// Derives the key for `password` under `salt` and stands at offset 0.
    pub fn start(password: &str, salt: &[u8], total: u64) -> (job: BatchJob)
        requires
            salt@.len() == SALT_LEN,
            total <= MAX_KEYSTREAM_POS,
            password.spec_bytes().len() <= 0xFFFF_FFFF,
        ensures
            job.wf(),
            job.offset == 0,
            job.total == total,
            job.key@ == derived_key(password@, salt@),
    {
        BatchJob { key: derive_key(password, salt), offset: 0, total }
    }

    /// Transforms the next chunk in place at the job's current offset and
    /// advances past it; returns the progress value to report, if this is a
    /// reporting point.
    pub fn process_chunk(&mut self, chunk: &mut Vec<u8>) -> (emit: Option<u64>)
        requires
            old(self).wf(),
            old(self).offset + old(chunk)@.len() <= old(self).total,
        ensures
            final(self).wf(),
            final(self).key == old(self).key,
            final(self).total == old(self).total,
            final(self).offset == old(self).offset + old(chunk)@.len(),
            final(chunk)@ == apply_spec(old(chunk)@, old(self).offset as int, old(self).key@),
            emit matches Some(p)
                ==> p == progress_of(final(self).offset as int, old(self).total as int),
            (emit is Some) == emit_point(
                old(self).offset + old(chunk)@.len(), old(self).total as int),
    {
        encrypt_decrypt_at_offset(chunk, self.offset, &self.key);
        self.offset = self.offset + chunk.len() as u64;
        if should_emit_progress(self.offset, self.total) {
            Some(progress_percent(self.offset, self.total))
        } else {
            None
        }
    }
}

/// Encrypts a whole plaintext held in memory: a fresh random salt as the
/// 16-byte header, then the ciphertext, produced chunk by chunk exactly as
/// the streaming pipeline produces it.
pub fn encrypt_bytes(plain: &Vec<u8>, password: &str) -> (out: Vec<u8>)
    requires
        plain@.len() <= MAX_KEYSTREAM_POS,
        password.spec_bytes().len() <= 0xFFFF_FFFF,
    ensures
        out@.len() == plain@.len() + SALT_LEN,
        out@ == encrypted_file_spec(plain@, out@.take(SALT_LEN as int), password@),
{
    let salt = generate_salt();
    let mut job = BatchJob::start(password, salt.as_slice(), plain.len() as u64);
    let mut out: Vec<u8> = slice_to_vec(salt.as_slice());
    let ghost key = job.key@;
    let mut i: usize = 0;
    while i < plain.len()
        invariant
            i <= plain@.len(),
            plain@.len() <= MAX_KEYSTREAM_POS,
            job.wf(),
            job.total == plain@.len(),
            job.offset == i,
            job.key@ == key,
            out@ == salt@ + apply_spec(plain@.take(i as int), 0, key),
        decreases plain@.len() - i,
    {
        let n = if plain.len() - i < CHUNK_SIZE { plain.len() - i } else { CHUNK_SIZE };
        let mut chunk = slice_to_vec(slice_subrange(plain.as_slice(), i, i + n));
        let _ = job.process_chunk(&mut chunk);
        proof {
            lemma_apply_concat(plain@.take(i as int), plain@.subrange(i as int, i + n), 0, key);
            assert(plain@.take(i + n)
                =~= plain@.take(i as int) + plain@.subrange(i as int, i + n));
        }
        out.append(&mut chunk);
        i = i + n;
    }
    proof {
        assert(plain@.take(plain@.len() as int) =~= plain@);
        assert(out@.take(SALT_LEN as int) =~= salt@);
    }
    out
}

/// Decrypts a whole encrypted file held in memory: reads the salt header,
/// derives the key, and transforms the body chunk by chunk at matching
/// plaintext offsets.
pub fn decrypt_bytes(file: &Vec<u8>, password: &str) -> (out: Vec<u8>)
    requires
        SALT_LEN <= file@.len(),
        file@.len() - SALT_LEN <= MAX_KEYSTREAM_POS,
        password.spec_bytes().len() <= 0xFFFF_FFFF,
    ensures
        out@.len() == file@.len() - SALT_LEN,
        out@ == decrypted_file_spec(file@, password@),
{
    let salt = slice_subrange(file.as_slice(), 0, SALT_LEN);
    let body_len = file.len() - SALT_LEN;
    let mut job = BatchJob::start(password, salt, body_len as u64);
    let ghost key = job.key@;
    let ghost body = file@.skip(SALT_LEN as int);
    let mut out: Vec<u8> = Vec::new();
    let mut i: usize = 0;
    while i < body_len
        invariant
            i <= body_len,
            body_len == file@.len() - SALT_LEN,
            SALT_LEN + body_len <= usize::MAX,
            body == file@.skip(SALT_LEN as int),
            body_len <= MAX_KEYSTREAM_POS,
            job.wf(),
            job.total == body_len,
            job.offset == i,
            job.key@ == key,
            key == derived_key(password@, file@.take(SALT_LEN as int)),
            out@ == apply_spec(body.take(i as int), 0, key),
        decreases body_len - i,
    {
        let n = if body_len - i < CHUNK_SIZE { body_len - i } else { CHUNK_SIZE };
        let mut chunk = slice_to_vec(
            slice_subrange(file.as_slice(), SALT_LEN + i, SALT_LEN + i + n));
        proof {
            assert(file@.subrange(SALT_LEN + i as int, SALT_LEN + i + n)
                =~= body.subrange(i as int, i + n));
        }
        let _ = job.process_chunk(&mut chunk);
        proof {
            lemma_apply_concat(body.take(i as int), body.subrange(i as int, i + n), 0, key);
            assert(body.take(i + n) =~= body.take(i as int) + body.subrange(i as int, i + n));
        }
        out.append(&mut chunk);
        i = i + n;
    }
    proof {
        assert(body.take(body.len() as int) =~= body);
    }
    out
}

} // verus!
