//! Floating-point payloads as text. A float payload is the decimal text std
//! prints for an `f32` or `f64`; this module decides which texts std reads
//! back as a float, by the grammar that `f32::from_str` and `f64::from_str`
//! document (letters compared without regard to case):
//!
//! ```text
//! Float  ::= Sign? ( 'inf' | 'infinity' | 'nan' | Number )
//! Number ::= ( Digit+ | Digit+ '.' Digit* | Digit* '.' Digit+ ) Exp?
//! Exp    ::= 'e' Sign? Digit+
//! Sign   ::= [+-]
//! Digit  ::= [0-9]
//! ```
use vstd::prelude::*;
use vstd::slice::slice_subrange;
use vstd::utf8::{valid_utf8, decode_utf8};
use bytes::Bytes;
use crate::decimal::is_digit;
use crate::error::{TopikError, ErrorView, EncodingFailure};
use crate::payload::{bytes_content, payload_text};
use crate::text::str_to_chars;

verus! {

/// `c` is the lower-case letter `l` or its upper-case form.
pub open spec fn same_letter(c: char, l: char) -> bool {
    c == l || c as u32 + 32 == l as u32
}

/// `s` spells the lower-case word `w`, in any case.
pub open spec fn word_is(s: Seq<char>, w: Seq<char>) -> bool {
    &&& s.len() == w.len()
    &&& forall|i: int| 0 <= i < s.len() ==> same_letter(#[trigger] s[i], w[i])
}

pub open spec fn is_sign(c: char) -> bool {
    c == '+' || c == '-'
}

/// One or more digits.
pub open spec fn digits(s: Seq<char>) -> bool {
    &&& s.len() >= 1
    &&& forall|i: int| 0 <= i < s.len() ==> is_digit(#[trigger] s[i])
}

/// Digits with at most one decimal point and at least one digit.
pub open spec fn mantissa(s: Seq<char>) -> bool {
    &&& forall|i: int| 0 <= i < s.len() ==> is_digit(#[trigger] s[i]) || s[i] == '.'
    &&& forall|i: int, j: int|
        #![trigger s[i], s[j]]
        0 <= i < j < s.len() && s[i] == '.' ==> s[j] != '.'
    &&& exists|i: int| 0 <= i < s.len() && is_digit(#[trigger] s[i])
}

/// An exponent after its `e`: an optional sign and one or more digits.
pub open spec fn exponent(s: Seq<char>) -> bool {
    if s.len() >= 1 && is_sign(s[0]) {
        digits(s.skip(1))
    } else {
        digits(s)
    }
}

/// A mantissa, optionally followed by `e` and an exponent.
pub open spec fn number(s: Seq<char>) -> bool {
    ||| mantissa(s)
    ||| exists|k: int|
        0 <= k < s.len() && same_letter(#[trigger] s[k], 'e') && mantissa(s.take(k)) && exponent(
            s.skip(k + 1),
        )
}

/// A float without its sign.
pub open spec fn unsigned_float(s: Seq<char>) -> bool {
    ||| word_is(s, seq!['i', 'n', 'f'])
    ||| word_is(s, seq!['i', 'n', 'f', 'i', 'n', 'i', 't', 'y'])
    ||| word_is(s, seq!['n', 'a', 'n'])
    ||| number(s)
}

/// `s` is text that std reads as an `f32` (and as an `f64`).
pub open spec fn float_literal(s: Seq<char>) -> bool {
    if s.len() >= 1 && is_sign(s[0]) {
        unsigned_float(s.skip(1))
    } else {
        unsigned_float(s)
    }
}

/// What decoding a float payload gives: its text, when the bytes are UTF-8
/// and the text is a float.
pub open spec fn decode_float(content: Seq<u8>) -> Result<Seq<char>, ErrorView> {
    if !valid_utf8(content) {
        Err(ErrorView::Encoding(EncodingFailure::InvalidUtf8))
    } else if float_literal(decode_utf8(content)) {
        Ok(decode_utf8(content))
    } else {
        Err(ErrorView::Encoding(EncodingFailure::InvalidFloat))
    }
}

fn word_matches(s: &[char], w: &[char]) -> (r: bool)
    ensures
        r == word_is(s@, w@),
{
    if s.len() != w.len() {
        return false;
    }
    let mut i: usize = 0;
    while i < s.len()
        invariant
            s@.len() == w@.len(),
            0 <= i <= s@.len(),
            forall|j: int| 0 <= j < i ==> same_letter(#[trigger] s@[j], w@[j]),
        decreases s@.len() - i,
    {
        let c = s[i];
        let l = w[i];
        proof {
            vstd::utf8::char_is_scalar(c);
        }
        if !(c == l || (c as u32) + 32 == (l as u32)) {
            assert(!same_letter(s@[i as int], w@[i as int]));
            return false;
        }
        i = i + 1;
    }
    true
}

fn is_digits(s: &[char]) -> (r: bool)
    ensures
        r == digits(s@),
{
    if s.len() == 0 {
        return false;
    }
    let mut i: usize = 0;
    while i < s.len()
        invariant
            0 <= i <= s@.len(),
            forall|j: int| 0 <= j < i ==> is_digit(#[trigger] s@[j]),
        decreases s@.len() - i,
    {
        let c = s[i];
        if !('0' <= c && c <= '9') {
            assert(!is_digit(s@[i as int]));
            return false;
        }
        i = i + 1;
    }
    true
}

fn is_mantissa(s: &[char]) -> (r: bool)
    ensures
        r == mantissa(s@),
{
    let mut dots: usize = 0;
    let mut dot_at: usize = 0;
    let mut has_digit = false;
    let mut digit_at: usize = 0;
    let mut i: usize = 0;
    while i < s.len()
        invariant
            0 <= i <= s@.len(),
            forall|j: int| 0 <= j < i ==> is_digit(#[trigger] s@[j]) || s@[j] == '.',
            dots <= 1,
            dots == 0 ==> forall|j: int| 0 <= j < i ==> #[trigger] s@[j] != '.',
            dots == 1 ==> dot_at < i && s@[dot_at as int] == '.' && forall|j: int|
                0 <= j < i && j != dot_at ==> #[trigger] s@[j] != '.',
            has_digit ==> digit_at < i && is_digit(s@[digit_at as int]),
            !has_digit ==> forall|j: int| 0 <= j < i ==> !is_digit(#[trigger] s@[j]),
        decreases s@.len() - i,
    {
        let c = s[i];
        if c == '.' {
            if dots == 1 {
                assert(s@[dot_at as int] == '.' && s@[i as int] == '.');
                return false;
            }
            dots = 1;
            dot_at = i;
        } else if '0' <= c && c <= '9' {
            has_digit = true;
            digit_at = i;
        } else {
            assert(!(is_digit(s@[i as int]) || s@[i as int] == '.'));
            return false;
        }
        i = i + 1;
    }
    if has_digit {
        assert(is_digit(s@[digit_at as int]));
    }
    has_digit
}

fn is_exponent(s: &[char]) -> (r: bool)
    ensures
        r == exponent(s@),
{
    if s.len() >= 1 && (s[0] == '+' || s[0] == '-') {
        let rest = slice_subrange(s, 1, s.len());
        assert(rest@ =~= s@.skip(1));
        is_digits(rest)
    } else {
        is_digits(s)
    }
}

/// The position of the first `e` or `E`, or the length.
fn first_e(s: &[char]) -> (k: usize)
    ensures
        k <= s@.len(),
        forall|j: int| 0 <= j < k ==> !same_letter(#[trigger] s@[j], 'e'),
        k < s@.len() ==> same_letter(s@[k as int], 'e'),
{
    let mut k: usize = 0;
    while k < s.len()
        invariant
            0 <= k <= s@.len(),
            forall|j: int| 0 <= j < k ==> !same_letter(#[trigger] s@[j], 'e'),
        decreases s@.len() - k,
    {
        let c = s[k];
        proof {
            vstd::utf8::char_is_scalar(c);
        }
        if c == 'e' || (c as u32) + 32 == ('e' as u32) {
            return k;
        }
        k = k + 1;
    }
    k
}

fn is_number(s: &[char]) -> (r: bool)
    ensures
        r == number(s@),
{
    let k = first_e(s);
    if k == s.len() {
        let m = is_mantissa(s);
        assert forall|j: int| 0 <= j < s@.len() implies !same_letter(#[trigger] s@[j], 'e') by {}
        m
    } else {
        let head = slice_subrange(s, 0, k);
        let tail = slice_subrange(s, k + 1, s.len());
        let m = is_mantissa(head);
        let x = is_exponent(tail);
        proof {
            assert(head@ =~= s@.take(k as int));
            assert(tail@ =~= s@.skip(k + 1));
            assert(!(is_digit(s@[k as int]) || s@[k as int] == '.'));
            assert(!mantissa(s@));
            if m && x {
                assert(same_letter(s@[k as int], 'e'));
            } else {
                assert forall|j: int|
                    0 <= j < s@.len() && same_letter(#[trigger] s@[j], 'e') implies !(mantissa(
                    s@.take(j),
                ) && exponent(s@.skip(j + 1))) by {
                    if j > k {
                        assert(s@.take(j)[k as int] == s@[k as int]);
                        assert(!(is_digit(s@.take(j)[k as int]) || s@.take(j)[k as int] == '.'));
                    }
                }
            }
        }
        m && x
    }
}

/// Whether `s` is text that std reads as a float.
pub fn is_float_literal(s: &[char]) -> (r: bool)
    ensures
        r == float_literal(s@),
{
    let body = if s.len() >= 1 && (s[0] == '+' || s[0] == '-') {
        let b = slice_subrange(s, 1, s.len());
        assert(b@ =~= s@.skip(1));
        b
    } else {
        s
    };
    let inf = vec!['i', 'n', 'f'];
    let infinity = vec!['i', 'n', 'f', 'i', 'n', 'i', 't', 'y'];
    let nan = vec!['n', 'a', 'n'];
    assert(inf@ =~= seq!['i', 'n', 'f']);
    assert(infinity@ =~= seq!['i', 'n', 'f', 'i', 'n', 'i', 't', 'y']);
    assert(nan@ =~= seq!['n', 'a', 'n']);
    word_matches(body, inf.as_slice()) || word_matches(body, infinity.as_slice()) || word_matches(
        body,
        nan.as_slice(),
    ) || is_number(body)
}

/// Decodes a float payload to its text.
pub fn decode_float_payload(bytes: Bytes) -> (r: Result<String, TopikError>)
    ensures
        match r {
            Ok(s) => decode_float(bytes_content(bytes)) == Ok::<Seq<char>, ErrorView>(s@),
            Err(e) => decode_float(bytes_content(bytes)) == Err::<Seq<char>, ErrorView>(e@),
        },
{
    match payload_text(bytes) {
        None => Err(TopikError::Encoding(EncodingFailure::InvalidUtf8)),
        Some(s) => {
            if is_float_literal(str_to_chars(s.as_str()).as_slice()) {
                Ok(s)
            } else {
                Err(TopikError::Encoding(EncodingFailure::InvalidFloat))
            }
        },
    }
}

} // verus!
