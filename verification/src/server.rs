//! The streaming decryption server's logic: parsing `Range` headers,
//! planning the response for a request, and decrypting the body chunk by
//! chunk at a running plaintext cursor.
//!
//! The HTTP plumbing around this (socket, routing, file handles) lives
//! outside the library; it hands in the raw header value and the plaintext
//! size, and follows the returned plan.

use vstd::prelude::*;
use vstd::slice::slice_subrange;
use vstd::string::StringSliceAdditionalSpecFns;

use crate::crypto::{
    apply_spec, derive_key, derived_key, encrypt_decrypt_at_offset, lemma_apply_involution,
    lemma_apply_subrange, MAX_KEYSTREAM_POS, SALT_LEN,
};
use crate::digits::{parse_u64, parses_to};
use crate::pipeline::encrypted_file_spec;

verus! {

/// The session bound to a running server: every request reopens the file at
/// this path and rederives the key from this password.
pub struct AppState {
    /// Password of the served file; the key is derived per request.
    pub password: String,
    /// Path of the encrypted file being served.
    pub video_path: String,
}

/// ASCII code of `'-'`.
pub const DASH: u8 = 45;

/// The `bytes=` unit marker of a `Range` header, as bytes.
pub open spec fn range_marker() -> Seq<u8> {
    seq![98u8, 121u8, 116u8, 101u8, 115u8, 61u8]
}

/// A `Range` value with every occurrence of `bytes=` removed, scanning left
/// to right.
pub open spec fn strip_marker(s: Seq<u8>) -> Seq<u8>
    decreases s.len(),
{
    if s.len() >= 6 && s.take(6) == range_marker() {
        strip_marker(s.skip(6))
    } else if s.len() == 0 {
        s
    } else {
        seq![s[0]] + strip_marker(s.skip(1))
    }
}

/// Position of the first `'-'` in `s` at or after `i`, or `s.len()` if there
/// is none.
pub open spec fn first_dash(s: Seq<u8>, i: int) -> int
    decreases s.len() - i,
{
    if i >= s.len() {
        s.len() as int
    } else if s[i] == DASH {
        i
    } else {
        first_dash(s, i + 1)
    }
}

/// The requested first byte of a stripped `Range` value: the number before
/// the first `'-'`, or 0 when it does not parse as a `u64`.
pub open spec fn spec_range_start(c: Seq<u8>) -> nat {
    let i = first_dash(c, 0);
    match parses_to(c.take(i)) {
        Some(n) => if n <= u64::MAX {
            n
        } else {
            0
        },
        None => 0,
    }
}

/// The requested last byte of a stripped `Range` value: the number between
/// the first and second `'-'`, when it parses as a `u64` and lies within
/// `start ..< video_size`; otherwise the last byte of the file.
pub open spec fn spec_range_end(c: Seq<u8>, video_size: nat, start: nat) -> nat {
    let i = first_dash(c, 0);
    if i >= c.len() {
        (video_size - 1) as nat
    } else {
        let j = first_dash(c, i + 1);
        match parses_to(c.subrange(i + 1, j)) {
            Some(e) => if e <= u64::MAX && start <= e && e < video_size {
                e
            } else {
                (video_size - 1) as nat
            },
            None => (video_size - 1) as nat,
        }
    }
}

/// What a `GET` of the video resolves to, fixed by the request's `Range`
/// header and the plaintext size alone.
#[derive(Clone, Copy, Debug, PartialEq, Eq, Structural)]
pub enum ResponsePlan {
    /// No `Range` header: status 200, the whole plaintext.
    Full {
        /// The `Content-Length` to send: the whole plaintext size.
        content_length: u64,
    },
    /// A satisfiable range: status 206, bytes `start ..= end` of the
    /// plaintext, `length` of them.
    Partial {
        /// First plaintext byte to serve.
        start: u64,
        /// Last plaintext byte to serve.
        end: u64,
        /// Number of bytes served: `end - start + 1`.
        length: u64,
    },
    /// The requested start lies at or past the end of the file: status 416,
    /// no body.
    NotSatisfiable,
}

/// The response owed to a request: the whole file without a `Range` header;
/// 416 exactly when the requested start is at or past the plaintext size;
/// otherwise the requested range, its end defaulted and clamped into the
/// file.
pub open spec fn spec_plan(header: Option<Seq<u8>>, video_size: nat) -> ResponsePlan {
    match header {
        None => ResponsePlan::Full { content_length: video_size as u64 },
        Some(h) => {
            let c = strip_marker(h);
            let start = spec_range_start(c);
            if start >= video_size {
                ResponsePlan::NotSatisfiable
            } else {
                let end = spec_range_end(c, video_size, start);
                ResponsePlan::Partial {
                    start: start as u64,
                    end: end as u64,
                    length: (end - start + 1) as u64,
                }
            }
        },
    }
}

/// Whether the six bytes of `s` starting at `i` spell `bytes=`.
fn matches_marker_at(s: &[u8], i: usize) -> (b: bool)
    requires
        i <= s@.len(),
    ensures
        b == (s@.len() - i >= 6 && s@.skip(i as int).take(6) == range_marker()),
{
    if s.len() - i < 6 {
        return false;
    }
    let m = s[i] == 98 && s[i + 1] == 121 && s[i + 2] == 116 && s[i + 3] == 101
        && s[i + 4] == 115 && s[i + 5] == 61;
    proof {
        let w = s@.skip(i as int).take(6);
        if m {
            assert(w =~= range_marker());
        } else {
            assert(w[0] == s@[i as int] && w[1] == s@[i + 1] && w[2] == s@[i + 2]
                && w[3] == s@[i + 3] && w[4] == s@[i + 4] && w[5] == s@[i + 5]);
        }
    }
    m
}

/// Removes every `bytes=` from a raw `Range` value, as the unit prefix is
/// stripped before the numbers are read.
fn clean_header(s: &[u8]) -> (out: Vec<u8>)
    ensures
        out@ == strip_marker(s@),
{
    let mut out: Vec<u8> = Vec::new();
    let mut i: usize = 0;
    proof {
        assert(s@.skip(0) =~= s@);
        assert(out@ + strip_marker(s@) =~= strip_marker(s@));
    }
    while i < s.len()
        invariant
            i <= s@.len(),
            strip_marker(s@) == out@ + strip_marker(s@.skip(i as int)),
        decreases s@.len() - i,
    {
        if matches_marker_at(s, i) {
            proof {
                assert(s@.skip(i as int).skip(6) =~= s@.skip(i + 6));
            }
            i = i + 6;
        } else {
            proof {
                assert(s@.skip(i as int)[0] == s@[i as int]);
                assert(s@.skip(i as int).skip(1) =~= s@.skip(i + 1));
                assert(out@.push(s@[i as int]) + strip_marker(s@.skip(i + 1))
                    =~= out@ + (seq![s@[i as int]] + strip_marker(s@.skip(i + 1))));
            }
            out.push(s[i]);
            i = i + 1;
        }
    }
    proof {
        assert(s@.skip(s@.len() as int) =~= Seq::<u8>::empty());
        assert(out@ + strip_marker(s@.skip(s@.len() as int)) =~= out@);
    }
    out
}

/// Index of the first `'-'` at or after `from`, or the length if none.
fn find_dash(s: &[u8], from: usize) -> (j: usize)
    requires
        from <= s@.len(),
    ensures
        j == first_dash(s@, from as int),
        from <= j <= s@.len(),
{
    let mut i: usize = from;
    while i < s.len()
        invariant
            from <= i <= s@.len(),
            first_dash(s@, from as int) == first_dash(s@, i as int),
        decreases s@.len() - i,
    {
        if s[i] == DASH {
            return i;
        }
        i = i + 1;
    }
    i
}

/// Plans the response for a `GET` of the video: `header` is the raw `Range`
/// value if the request carried one, `video_size` the plaintext size.
pub fn plan_request(header: Option<&[u8]>, video_size: u64) -> (plan: ResponsePlan)
    ensures
        header matches Some(h) ==> plan == spec_plan(Some(h@), video_size as nat),
        header is None ==> plan == spec_plan(None, video_size as nat),
{
    let h = match header {
        None => {
            return ResponsePlan::Full { content_length: video_size };
        },
        Some(h) => h,
    };
    let clean = clean_header(h);
    let i = find_dash(clean.as_slice(), 0);
    let start_text = slice_subrange(clean.as_slice(), 0, i);
    proof {
        assert(start_text@ =~= clean@.take(first_dash(clean@, 0)));
    }
    let start = match parse_u64(start_text) {
        Some(v) => v,
        None => 0,
    };
    if start >= video_size {
        return ResponsePlan::NotSatisfiable;
    }
    let end = if i >= clean.len() {
        video_size - 1
    } else {
        let j = find_dash(clean.as_slice(), i + 1);
        let end_text = slice_subrange(clean.as_slice(), i + 1, j);
        proof {
            assert(end_text@ =~= clean@.subrange(
                first_dash(clean@, 0) + 1,
                first_dash(clean@, first_dash(clean@, 0) + 1)));
        }
        match parse_u64(end_text) {
            Some(e) => if start <= e && e < video_size {
                e
            } else {
                video_size - 1
            },
            None => video_size - 1,
        }
    };
    ResponsePlan::Partial { start, end, length: end - start + 1 }
}

/// Physical offset in the encrypted file of plaintext byte `start`: the
/// salt header is skipped.
pub fn physical_offset(start: u64) -> (off: u64)
    requires
        start + SALT_LEN <= u64::MAX,
    ensures
        off == start + SALT_LEN,
{
    start + SALT_LEN as u64
}

/// How many bytes of a chunk a stream with `remaining` bytes owed takes.
pub open spec fn take_len_of(len: nat, remaining: nat) -> nat {
    if len <= remaining {
        len
    } else {
        remaining
    }
}

/// One response body in flight: the request's own key, the plaintext offset
/// of the next byte to serve, and how many bytes are still owed. Chunks read
/// from the file pass through it in increasing offset order.
pub struct DecryptStream {
    /// Key derived for this one request.
    pub key: [u8; 32],
    /// Plaintext offset of the next byte to serve.
    pub offset: u64,
    /// Bytes still owed to the response.
    pub remaining: u64,
}

impl DecryptStream {
    /// A stream is sound while everything it will serve lies within the
    /// cipher's addressable keystream.
    pub open spec fn wf(&self) -> bool {
        self.offset + self.remaining <= MAX_KEYSTREAM_POS
    }

    /// Derives the key for one request and stands at plaintext byte
    /// `start`, owing `length` bytes.
    pub fn begin(password: &str, salt: &[u8], start: u64, length: u64) -> (st: DecryptStream)
        requires
            salt@.len() == SALT_LEN,
            start + length <= MAX_KEYSTREAM_POS,
            password.spec_bytes().len() <= 0xFFFF_FFFF,
        ensures
            st.wf(),
            st.offset == start,
            st.remaining == length,
            st.key@ == derived_key(password@, salt@),
    {
        DecryptStream { key: derive_key(password, salt), offset: start, remaining: length }
    }

    /// Takes the next chunk read from the file, truncates it to what is
    /// still owed, decrypts it at the running plaintext cursor, and
    /// advances past it.
    pub fn next_chunk(&mut self, chunk: Vec<u8>) -> (out: Vec<u8>)
        requires
            old(self).wf(),
        ensures
            final(self).wf(),
            final(self).key == old(self).key,
            out@.len() == take_len_of(chunk@.len(), old(self).remaining as nat),
            out@ == apply_spec(
                chunk@.take(out@.len() as int), old(self).offset as int, old(self).key@),
            final(self).offset == old(self).offset + out@.len(),
            final(self).remaining == old(self).remaining - out@.len(),
    {
        let mut data = chunk;
        let take_len: usize = if data.len() as u64 <= self.remaining {
            data.len()
        } else {
            self.remaining as usize
        };
        data.truncate(take_len);
        encrypt_decrypt_at_offset(&mut data, self.offset, &self.key);
        self.offset = self.offset + take_len as u64;
        self.remaining = self.remaining - take_len as u64;
        data
    }
}

/// Law: the bytes a satisfiable range request serves are exactly that slice
/// of the plaintext — decrypting ciphertext bytes `start ..= end` (past the
/// salt header) at plaintext offset `start` yields `plain[start ..= end]`.
pub proof fn lemma_range_correct(
    plain: Seq<u8>,
    salt: Seq<u8>,
    password: Seq<char>,
    start: int,
    end: int,
)
    requires
        salt.len() == SALT_LEN,
        0 <= start <= end < plain.len(),
    ensures
        apply_spec(
            encrypted_file_spec(plain, salt, password).subrange(
                SALT_LEN + start, SALT_LEN + end + 1),
            start,
            derived_key(password, salt),
        ) == plain.subrange(start, end + 1),
{
    let key = derived_key(password, salt);
    let file = encrypted_file_spec(plain, salt, password);
    let body = apply_spec(plain, 0, key);
    assert(file.subrange(SALT_LEN + start, SALT_LEN + end + 1)
        =~= body.subrange(start, end + 1));
    lemma_apply_subrange(plain, 0, key, start, end + 1);
    lemma_apply_involution(plain.subrange(start, end + 1), start, key);
}

/// The `Content-Range` value owed to a partial response:
/// `bytes <start>-<end>/<total>`, all three numbers in decimal.
pub open spec fn content_range_bytes(start: nat, end: nat, total: nat) -> Seq<u8> {
    seq![98u8, 121u8, 116u8, 101u8, 115u8, 32u8] + crate::digits::dec_digits_of(start)
        + seq![45u8] + crate::digits::dec_digits_of(end) + seq![47u8]
        + crate::digits::dec_digits_of(total)
}

/// Builds the `Content-Range` header value `bytes <start>-<end>/<total>`.
pub fn content_range_value(start: u64, end: u64, total: u64) -> (r: String)
    ensures
        r@ == crate::digits::ascii_chars(
            content_range_bytes(start as nat, end as nat, total as nat)),
{
    let mut out: Vec<u8> = Vec::new();
    out.push(98);
    out.push(121);
    out.push(116);
    out.push(101);
    out.push(115);
    out.push(32);
    let ghost prefix = out@;
    let mut d = crate::digits::u64_to_dec(start);
    out.append(&mut d);
    out.push(45);
    let mut d2 = crate::digits::u64_to_dec(end);
    out.append(&mut d2);
    out.push(47);
    let mut d3 = crate::digits::u64_to_dec(total);
    out.append(&mut d3);
    proof {
        assert(prefix =~= seq![98u8, 121u8, 116u8, 101u8, 115u8, 32u8]);
        assert(out@ =~= content_range_bytes(start as nat, end as nat, total as nat));
        crate::digits::lemma_dec_digits_all_ascii(start as nat);
        crate::digits::lemma_dec_digits_all_ascii(end as nat);
        crate::digits::lemma_dec_digits_all_ascii(total as nat);
        assert(crate::digits::all_ascii(prefix));
        assert(crate::digits::all_ascii(seq![45u8]));
        assert(crate::digits::all_ascii(seq![47u8]));
        crate::digits::lemma_all_ascii_concat(
            prefix, crate::digits::dec_digits_of(start as nat));
        crate::digits::lemma_all_ascii_concat(
            prefix + crate::digits::dec_digits_of(start as nat), seq![45u8]);
        crate::digits::lemma_all_ascii_concat(
            prefix + crate::digits::dec_digits_of(start as nat) + seq![45u8],
            crate::digits::dec_digits_of(end as nat));
        crate::digits::lemma_all_ascii_concat(
            prefix + crate::digits::dec_digits_of(start as nat) + seq![45u8]
                + crate::digits::dec_digits_of(end as nat),
            seq![47u8]);
        crate::digits::lemma_all_ascii_concat(
            prefix + crate::digits::dec_digits_of(start as nat) + seq![45u8]
                + crate::digits::dec_digits_of(end as nat) + seq![47u8],
            crate::digits::dec_digits_of(total as nat));
        assert(crate::digits::all_ascii(out@));
    }
    crate::digits::ascii_to_string(out)
}

} // verus!
