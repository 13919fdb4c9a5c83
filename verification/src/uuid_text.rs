//! UUID segments: the hyphenated lower-case text of a UUID (as the `uuid`
//! crate prints it) and parsing of UUID text by the `uuid` crate.
use vstd::prelude::*;
use crate::decimal::digit_char;

verus! {

/// `16^n`.
pub open spec fn pow16(n: nat) -> int
    decreases n,
{
    if n == 0 {
        1
    } else {
        16 * pow16((n - 1) as nat)
    }
}

/// The lower-case hexadecimal digit for `d` in `0..16`.
pub open spec fn hex_digit_lower(d: int) -> char {
    if d < 10 {
        digit_char(d)
    } else if d == 10 {
        'a'
    } else if d == 11 {
        'b'
    } else if d == 12 {
        'c'
    } else if d == 13 {
        'd'
    } else if d == 14 {
        'e'
    } else {
        'f'
    }
}

/// The `k`-th hexadecimal digit of `x`, most significant first (`k` in
/// `0..32`).
pub open spec fn uuid_nibble(x: u128, k: int) -> int {
    (x as int / pow16((31 - k) as nat)) % 16
}

/// Hyphens before position `i` of the hyphenated form.
pub open spec fn hyphens_before(i: int) -> int {
    if i < 8 {
        0
    } else if i < 13 {
        1
    } else if i < 18 {
        2
    } else if i < 23 {
        3
    } else {
        4
    }
}

/// The hyphenated lower-case form `xxxxxxxx-xxxx-xxxx-xxxx-xxxxxxxxxxxx` of
/// the UUID whose 128-bit big-endian value is `x`.
pub open spec fn uuid_hyphenated(x: u128) -> Seq<char> {
    Seq::new(
        36,
        |i: int|
            if i == 8 || i == 13 || i == 18 || i == 23 {
                '-'
            } else {
                hex_digit_lower(uuid_nibble(x, i - hyphens_before(i)))
            },
    )
}

/// A hexadecimal digit, in either case.
pub open spec fn is_hex(c: char) -> bool {
    ('0' <= c && c <= '9') || ('a' <= c && c <= 'f') || ('A' <= c && c <= 'F')
}

/// The value of a hexadecimal digit.
pub open spec fn hex_value(c: char) -> int {
    if '0' <= c && c <= '9' {
        c as int - '0' as int
    } else if 'a' <= c && c <= 'f' {
        c as int - 'a' as int + 10
    } else {
        c as int - 'A' as int + 10
    }
}

/// The number that hexadecimal digits spell, most significant first.
pub open spec fn hex_number(d: Seq<char>) -> int
    decreases d.len(),
{
    if d.len() == 0 {
        0
    } else {
        hex_number(d.drop_last()) * 16 + hex_value(d.last())
    }
}

/// The 32 digits of a hyphenated UUID text (hyphens at 8, 13, 18 and 23).
pub open spec fn hyphenated_digits(s: Seq<char>) -> Option<Seq<char>> {
    if s.len() == 36 && s[8] == '-' && s[13] == '-' && s[18] == '-' && s[23] == '-' {
        Some(
            s.subrange(0, 8) + s.subrange(9, 13) + s.subrange(14, 18) + s.subrange(19, 23)
                + s.subrange(24, 36),
        )
    } else {
        None
    }
}

/// `c` is the ASCII character `l`, or its upper-case form when `l` is a
/// lower-case letter.
pub open spec fn ascii_ci(c: char, l: char) -> bool {
    c == l || ('a' <= l && l <= 'z' && c as u32 + 32 == l as u32)
}

/// The `urn:uuid:` prefix, in any case.
pub open spec fn urn_prefix(s: Seq<char>) -> bool {
    let p = seq!['u', 'r', 'n', ':', 'u', 'u', 'i', 'd', ':'];
    s.len() == 9 && forall|i: int| 0 <= i < 9 ==> ascii_ci(#[trigger] s[i], p[i])
}

/// The 32 digits of a UUID text in one of the forms `Uuid::parse_str`
/// accepts: simple, hyphenated, braced (`{hyphenated}`) and URN
/// (`urn:uuid:hyphenated`).
pub open spec fn uuid_digits(s: Seq<char>) -> Option<Seq<char>> {
    if s.len() == 32 {
        Some(s)
    } else if s.len() == 36 {
        hyphenated_digits(s)
    } else if s.len() == 38 && s[0] == '{' && s[37] == '}' {
        hyphenated_digits(s.subrange(1, 37))
    } else if s.len() == 45 && urn_prefix(s.subrange(0, 9)) {
        hyphenated_digits(s.subrange(9, 45))
    } else {
        None
    }
}

/// The value of the UUID that `Uuid::parse_str` reads from `s` (the 128-bit
/// big-endian value of its 32 hexadecimal digits), if it accepts `s`.
pub open spec fn uuid_parse(s: Seq<char>) -> Option<u128> {
    match uuid_digits(s) {
        Some(d) => if forall|i: int| 0 <= i < d.len() ==> is_hex(#[trigger] d[i]) {
            Some(hex_number(d) as u128)
        } else {
            None
        },
        None => None,
    }
}

/// The 32 hexadecimal digits of `x`, most significant first.
pub open spec fn uuid_hex_digits(x: u128) -> Seq<char> {
    Seq::new(32, |k: int| hex_digit_lower(uuid_nibble(x, k)))
}

proof fn lemma_pow16_positive(n: nat)
    ensures
        pow16(n) > 0,
    decreases n,
{
    if n > 0 {
        lemma_pow16_positive((n - 1) as nat);
    }
}

proof fn lemma_hex_digit(n: int)
    requires
        0 <= n < 16,
    ensures
        is_hex(hex_digit_lower(n)),
        hex_value(hex_digit_lower(n)) == n,
{
}

proof fn lemma_hex_number_prefix(x: u128, k: nat)
    requires
        k <= 32,
    ensures
        hex_number(uuid_hex_digits(x).take(k as int)) == x as int / pow16((32 - k) as nat),
    decreases k,
{
    let d = uuid_hex_digits(x);
    if k == 0 {
        assert(d.take(0) =~= Seq::<char>::empty());
        assert(pow16(32) == 0x1_0000_0000_0000_0000_0000_0000_0000_0000) by {
            reveal_with_fuel(pow16, 33);
        }
    } else {
        lemma_hex_number_prefix(x, (k - 1) as nat);
        let a = pow16((32 - k) as nat);
        lemma_pow16_positive((32 - k) as nat);
        assert(d.take(k as int).drop_last() =~= d.take(k - 1));
        let q = x as int / a;
        assert(uuid_nibble(x, k - 1) == q % 16);
        lemma_hex_digit(q % 16);
        assert(pow16((33 - k) as nat) == a * 16);
        vstd::arithmetic::div_mod::lemma_div_denominator(x as int, a, 16);
        vstd::arithmetic::div_mod::lemma_fundamental_div_mod(q, 16);
    }
}

/// `Uuid::parse_str` reads the hyphenated text of a UUID back as the same
/// UUID.
pub proof fn lemma_uuid_read_back(x: u128)
    ensures
        uuid_parse(uuid_hyphenated(x)) == Some(x),
{
    let s = uuid_hyphenated(x);
    let d = uuid_hex_digits(x);
    assert(s.subrange(0, 8) + s.subrange(9, 13) + s.subrange(14, 18) + s.subrange(19, 23)
        + s.subrange(24, 36) =~= d);
    assert forall|i: int| 0 <= i < d.len() implies is_hex(#[trigger] d[i]) by {
        lemma_pow16_positive((31 - i) as nat);
        lemma_hex_digit(uuid_nibble(x, i));
    }
    lemma_hex_number_prefix(x, 32);
    assert(d.take(32) =~= d);
}

/// The message of the error `Uuid::parse_str` gives for `s`.
pub uninterp spec fn uuid_error_text(s: Seq<char>) -> Seq<char>;

/// `Uuid::from_u128(x).to_string()`: the hyphenated lower-case text of the
/// UUID.
#[verifier::external_body]
pub(crate) fn render_uuid(x: u128) -> (s: String)
    ensures
        s@ == uuid_hyphenated(x),
{
    uuid::Uuid::from_u128(x).to_string()
}

/// `Uuid::parse_str(s)`: the UUID's 128-bit value, or the error's message.
#[verifier::external_body]
pub(crate) fn parse_uuid(s: &str) -> (r: Result<u128, String>)
    ensures
        match r {
            Ok(v) => uuid_parse(s@) == Some(v),
            Err(m) => uuid_parse(s@) is None && m@ == uuid_error_text(s@),
        },
{
    match uuid::Uuid::parse_str(s) {
        Ok(u) => Ok(u.as_u128()),
        Err(e) => Err(e.to_string()),
    }
}

} // verus!
