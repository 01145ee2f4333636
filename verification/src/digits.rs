//! Decimal numbers in byte form: parsing header fields and printing header
//! values, with exact specifications.

use vstd::prelude::*;

verus! {

/// ASCII code of `'0'`.
pub const DIGIT_ZERO: u8 = 48;

/// ASCII code of `'+'`.
pub const PLUS_SIGN: u8 = 43;

/// Whether `b` is an ASCII decimal digit.
pub open spec fn is_digit(b: u8) -> bool {
    DIGIT_ZERO <= b <= DIGIT_ZERO + 9
}

/// Whether every byte of `s` is an ASCII decimal digit.
pub open spec fn all_digits(s: Seq<u8>) -> bool {
    forall|i: int| 0 <= i < s.len() ==> is_digit(#[trigger] s[i])
}

/// The number a string of decimal digits denotes.
pub open spec fn dec_value(s: Seq<u8>) -> nat
    decreases s.len(),
{
    if s.len() == 0 {
        0
    } else {
        dec_value(s.drop_last()) * 10 + (s.last() - DIGIT_ZERO) as nat
    }
}

/// What a decimal number field parses to: an optional leading `'+'`, then at
/// least one digit; anything else does not parse.
pub open spec fn parses_to(s: Seq<u8>) -> Option<nat> {
    let digits = if s.len() >= 1 && s[0] == PLUS_SIGN {
        s.skip(1)
    } else {
        s
    };
    if digits.len() > 0 && all_digits(digits) {
        Some(dec_value(digits))
    } else {
        None
    }
}

/// A longer digit string denotes at least as much as its prefix.
proof fn lemma_dec_value_take_monotone(s: Seq<u8>, i: int)
    requires
        0 <= i <= s.len(),
    ensures
        dec_value(s.take(i)) <= dec_value(s),
    decreases s.len() - i,
{
    if i < s.len() {
        assert(s.take(i + 1).drop_last() =~= s.take(i));
        assert(s.take(i + 1).last() == s[i]);
        lemma_dec_value_take_monotone(s, i + 1);
    } else {
        assert(s.take(i) =~= s);
    }
}

/// Parses a string of decimal digits (no sign) into a `u64`; `None` when the
/// string is empty, holds a non-digit, or denotes more than `u64::MAX`.
fn parse_digits(s: &[u8]) -> (r: Option<u64>)
    ensures
        (r is Some) <==> (s@.len() > 0 && all_digits(s@) && dec_value(s@) <= u64::MAX),
        r matches Some(v) ==> v == dec_value(s@),
{
    if s.len() == 0 {
        return None;
    }
    let mut acc: u64 = 0;
    let mut i: usize = 0;
    while i < s.len()
        invariant
            0 <= i <= s@.len(),
            all_digits(s@.take(i as int)),
            acc == dec_value(s@.take(i as int)),
        decreases s@.len() - i,
    {
        let b = s[i];
        if b < DIGIT_ZERO || b > DIGIT_ZERO + 9 {
            return None;
        }
        let d = (b - DIGIT_ZERO) as u64;
        if acc > (u64::MAX - d) / 10 {
            proof {
                assert(s@.take(i + 1).drop_last() =~= s@.take(i as int));
                assert(s@.take(i + 1).last() == s@[i as int]);
                assert(dec_value(s@.take(i + 1)) == acc * 10 + d);
                assert(acc * 10 + d > u64::MAX) by (nonlinear_arith)
                    requires
                        acc > (u64::MAX - d) / 10,
                        0 <= d <= 9,
                        acc <= u64::MAX,
                ;
                lemma_dec_value_take_monotone(s@, i + 1);
            }
            return None;
        }
        proof {
            assert(acc * 10 + d <= u64::MAX) by (nonlinear_arith)
                requires
                    acc <= (u64::MAX - d) / 10,
                    0 <= d <= 9,
                    acc >= 0,
            ;
            assert(s@.take(i + 1).drop_last() =~= s@.take(i as int));
            assert(s@.take(i + 1).last() == s@[i as int]);
        }
        acc = acc * 10 + d;
        i = i + 1;
    }
    proof {
        assert(s@.take(s@.len() as int) =~= s@);
    }
    Some(acc)
}

/// Parses a decimal number field as `u64::from_str` reads it: an optional
/// leading `'+'`, then decimal digits; `None` on anything else or on a value
/// above `u64::MAX`.
pub fn parse_u64(s: &[u8]) -> (r: Option<u64>)
    ensures
        (r is Some) <==> (parses_to(s@) matches Some(n) && n <= u64::MAX),
        r matches Some(v) ==> parses_to(s@) == Some(v as nat),
{
    if s.len() >= 1 && s[0] == PLUS_SIGN {
        let rest = vstd::slice::slice_subrange(s, 1, s.len());
        proof {
            assert(rest@ =~= s@.skip(1));
        }
        parse_digits(rest)
    } else {
        parse_digits(s)
    }
}

/// The shortest decimal digit string denoting `n` (a single `'0'` for zero).
pub open spec fn dec_digits_of(n: nat) -> Seq<u8>
    decreases n,
{
    if n < 10 {
        seq![(DIGIT_ZERO + n) as u8]
    } else {
        dec_digits_of(n / 10).push((DIGIT_ZERO + n % 10) as u8)
    }
}

/// Decimal digit strings hold ASCII digits only.
pub proof fn lemma_dec_digits_ascii(n: nat)
    ensures
        all_digits(dec_digits_of(n)),
    decreases n,
{
    if n >= 10 {
        lemma_dec_digits_ascii(n / 10);
        assert(forall|i: int| 0 <= i < dec_digits_of(n / 10).len()
            ==> is_digit(#[trigger] dec_digits_of(n)[i]));
    }
}

/// Appends the decimal digits of `n` to `out`.
fn push_dec(n: u64, out: &mut Vec<u8>)
    ensures
        final(out)@ == old(out)@ + dec_digits_of(n as nat),
    decreases n,
{
    if n < 10 {
        out.push(DIGIT_ZERO + n as u8);
        proof {
            assert(out@ =~= old(out)@ + dec_digits_of(n as nat));
        }
    } else {
        push_dec(n / 10, out);
        out.push(DIGIT_ZERO + (n % 10) as u8);
        proof {
            assert(out@ =~= old(out)@ + dec_digits_of(n as nat));
        }
    }
}

/// Whether every byte of `s` is ASCII.
pub open spec fn all_ascii(s: Seq<u8>) -> bool {
    forall|i: int| 0 <= i < s.len() ==> #[trigger] s[i] < 0x80
}

/// The characters that a sequence of ASCII bytes spells.
pub open spec fn ascii_chars(s: Seq<u8>) -> Seq<char> {
    s.map_values(|b: u8| b as char)
}

/// Decimal digit strings are ASCII.
pub proof fn lemma_dec_digits_all_ascii(n: nat)
    ensures
        all_ascii(dec_digits_of(n)),
{
    lemma_dec_digits_ascii(n);
    assert forall|i: int| 0 <= i < dec_digits_of(n).len()
        implies #[trigger] dec_digits_of(n)[i] < 0x80 by {
        assert(is_digit(dec_digits_of(n)[i]));
    }
}

/// ASCII survives concatenation.
pub proof fn lemma_all_ascii_concat(a: Seq<u8>, b: Seq<u8>)
    requires
        all_ascii(a),
        all_ascii(b),
    ensures
        all_ascii(a + b),
{
    assert forall|i: int| 0 <= i < (a + b).len() implies #[trigger] (a + b)[i] < 0x80 by {
        if i < a.len() {
            assert((a + b)[i] == a[i]);
        } else {
            assert((a + b)[i] == b[i - a.len()]);
        }
    }
}

/// Relies on `String::from_utf8`: bytes below 0x80 are valid UTF-8 and
/// decode to exactly those characters, one each.
#[verifier::external_body]
pub fn ascii_to_string(bytes: Vec<u8>) -> (r: String)
    requires
        all_ascii(bytes@),
    ensures
        r@ == ascii_chars(bytes@),
{
    String::from_utf8(bytes).expect("bytes are ASCII")
}

/// The decimal digits of `n`, as bytes.
pub fn u64_to_dec(n: u64) -> (r: Vec<u8>)
    ensures
        r@ == dec_digits_of(n as nat),
{
    let mut out: Vec<u8> = Vec::new();
    push_dec(n, &mut out);
    proof {
        assert(out@ =~= dec_digits_of(n as nat));
    }
    out
}

} // verus!
