//! Decimal text of integers: rendering as `to_string` does and parsing as
//! `str::parse` does for the primitive integer types.
use vstd::prelude::*;
use crate::error::IntErrorKind;

verus! {

pub open spec fn is_digit(c: char) -> bool {
    '0' <= c && c <= '9'
}

pub open spec fn digit_value(c: char) -> int {
    c as int - '0' as int
}

/// The digit character for `d` in `0..10`.
pub open spec fn digit_char(d: int) -> char {
    if d == 0 {
        '0'
    } else if d == 1 {
        '1'
    } else if d == 2 {
        '2'
    } else if d == 3 {
        '3'
    } else if d == 4 {
        '4'
    } else if d == 5 {
        '5'
    } else if d == 6 {
        '6'
    } else if d == 7 {
        '7'
    } else if d == 8 {
        '8'
    } else {
        '9'
    }
}

/// Shortest decimal text of `n`: no sign, no leading zeros.
pub open spec fn decimal(n: nat) -> Seq<char>
    decreases n,
{
    if n < 10 {
        seq![digit_char(n as int)]
    } else {
        decimal(n / 10).push(digit_char((n % 10) as int))
    }
}

/// Decimal text of `i`, with a leading `-` when negative.
pub open spec fn signed_decimal(i: int) -> Seq<char> {
    if i < 0 {
        seq!['-'] + decimal((-i) as nat)
    } else {
        decimal(i as nat)
    }
}

/// One step of reading a digit into the value read so far, toward a positive
/// value (`acc * 10 + d`) or a negative one (`acc * 10 - d`), checked against
/// `min..=max`.
pub open spec fn digit_step(acc: int, c: char, positive: bool, min: int, max: int) -> Result<
    int,
    IntErrorKind,
> {
    if !is_digit(c) {
        Err(IntErrorKind::InvalidDigit)
    } else {
        let n = if positive {
            acc * 10 + digit_value(c)
        } else {
            acc * 10 - digit_value(c)
        };
        if n > max {
            Err(IntErrorKind::PosOverflow)
        } else if n < min {
            Err(IntErrorKind::NegOverflow)
        } else {
            Ok(n)
        }
    }
}

/// Reads `digits` left to right from `acc`; the first failing step decides.
pub open spec fn accumulate(acc: int, digits: Seq<char>, positive: bool, min: int, max: int) -> Result<
    int,
    IntErrorKind,
>
    decreases digits.len(),
{
    if digits.len() == 0 {
        Ok(acc)
    } else {
        match digit_step(acc, digits[0], positive, min, max) {
            Ok(n) => accumulate(n, digits.drop_first(), positive, min, max),
            Err(e) => Err(e),
        }
    }
}

/// What `str::parse` gives for an integer type with range `min..=max`
/// (`signed`: whether a leading `-` is allowed): an optional `+` (or, for a
/// signed type, `-`) followed by decimal digits; a lone sign is an invalid
/// digit, empty text is `Empty`.
pub open spec fn parse_integer(s: Seq<char>, signed: bool, min: int, max: int) -> Result<
    int,
    IntErrorKind,
> {
    if s.len() == 0 {
        Err(IntErrorKind::Empty)
    } else if s.len() == 1 && (s[0] == '+' || s[0] == '-') {
        Err(IntErrorKind::InvalidDigit)
    } else if s[0] == '+' {
        accumulate(0, s.drop_first(), true, min, max)
    } else if s[0] == '-' && signed {
        accumulate(0, s.drop_first(), false, min, max)
    } else {
        accumulate(0, s, true, min, max)
    }
}

proof fn lemma_accumulate_range(acc: int, digits: Seq<char>, positive: bool, min: int, max: int)
    requires
        min <= acc <= max,
    ensures
        accumulate(acc, digits, positive, min, max) matches Ok(v) ==> min <= v <= max,
    decreases digits.len(),
{
    if digits.len() > 0 {
        if let Ok(n) = digit_step(acc, digits[0], positive, min, max) {
            lemma_accumulate_range(n, digits.drop_first(), positive, min, max);
        }
    }
}

/// A parsed integer lies in the type's range.
pub proof fn lemma_parse_integer_range(s: Seq<char>, signed: bool, min: int, max: int)
    requires
        min <= 0 <= max,
    ensures
        parse_integer(s, signed, min, max) matches Ok(v) ==> min <= v <= max,
{
    if s.len() > 0 {
        lemma_accumulate_range(0, s.drop_first(), true, min, max);
        lemma_accumulate_range(0, s.drop_first(), false, min, max);
        lemma_accumulate_range(0, s, true, min, max);
    }
}

proof fn lemma_digit_char(d: int)
    requires
        0 <= d < 10,
    ensures
        is_digit(digit_char(d)),
        digit_value(digit_char(d)) == d,
{
}

pub proof fn lemma_decimal_digits(n: nat)
    ensures
        decimal(n).len() >= 1,
        forall|i: int| 0 <= i < decimal(n).len() ==> is_digit(#[trigger] decimal(n)[i]),
    decreases n,
{
    if n >= 10 {
        lemma_decimal_digits(n / 10);
        lemma_digit_char((n % 10) as int);
    } else {
        lemma_digit_char(n as int);
    }
}

/// Reading `s` then `c` is reading `s` and taking one more step.
proof fn lemma_accumulate_push(acc: int, s: Seq<char>, c: char, positive: bool, min: int, max: int)
    ensures
        accumulate(acc, s.push(c), positive, min, max) == match accumulate(
            acc,
            s,
            positive,
            min,
            max,
        ) {
            Ok(v) => digit_step(v, c, positive, min, max),
            Err(e) => Err(e),
        },
    decreases s.len(),
{
    reveal_with_fuel(accumulate, 2);
    if s.len() == 0 {
        assert(s.push(c).drop_first() =~= Seq::<char>::empty());
        assert(s.push(c)[0] == c);
    } else {
        assert(s.push(c)[0] == s[0]);
        assert(s.push(c).drop_first() =~= s.drop_first().push(c));
        match digit_step(acc, s[0], positive, min, max) {
            Ok(n) => {
                lemma_accumulate_push(n, s.drop_first(), c, positive, min, max);
            },
            Err(e) => {},
        }
    }
}

proof fn lemma_accumulate_decimal(n: nat, min: int, max: int)
    requires
        min <= 0,
        n <= max,
    ensures
        accumulate(0, decimal(n), true, min, max) == Ok::<int, IntErrorKind>(n as int),
    decreases n,
{
    reveal_with_fuel(accumulate, 2);
    if n < 10 {
        lemma_digit_char(n as int);
        assert(decimal(n).drop_first() =~= Seq::<char>::empty());
    } else {
        lemma_accumulate_decimal(n / 10, min, max);
        lemma_digit_char((n % 10) as int);
        lemma_accumulate_push(0, decimal(n / 10), digit_char((n % 10) as int), true, min, max);
    }
}

proof fn lemma_accumulate_decimal_neg(n: nat, min: int, max: int)
    requires
        max >= 0,
        -n >= min,
    ensures
        accumulate(0, decimal(n), false, min, max) == Ok::<int, IntErrorKind>(-n),
    decreases n,
{
    reveal_with_fuel(accumulate, 2);
    if n < 10 {
        lemma_digit_char(n as int);
        assert(decimal(n).drop_first() =~= Seq::<char>::empty());
    } else {
        lemma_accumulate_decimal_neg(n / 10, min, max);
        lemma_digit_char((n % 10) as int);
        lemma_accumulate_push(0, decimal(n / 10), digit_char((n % 10) as int), false, min, max);
    }
}

/// Parsing the decimal text of a value in range gives the value back.
pub proof fn lemma_parse_signed_decimal(i: int, signed: bool, min: int, max: int)
    requires
        min <= 0 <= max,
        min <= i <= max,
        i < 0 ==> signed,
    ensures
        parse_integer(signed_decimal(i), signed, min, max) == Ok::<int, IntErrorKind>(i),
{
    if i < 0 {
        let m = (-i) as nat;
        lemma_decimal_digits(m);
        lemma_accumulate_decimal_neg(m, min, max);
        assert((seq!['-'] + decimal(m)).drop_first() =~= decimal(m));
        assert(is_digit(decimal(m)[0]));
    } else {
        lemma_decimal_digits(i as nat);
        lemma_accumulate_decimal(i as nat, min, max);
        assert(is_digit(decimal(i as nat)[0]));
    }
}

fn digit_to_char(d: u64) -> (c: char)
    requires
        d < 10,
    ensures
        c == digit_char(d as int),
{
    if d == 0 {
        '0'
    } else if d == 1 {
        '1'
    } else if d == 2 {
        '2'
    } else if d == 3 {
        '3'
    } else if d == 4 {
        '4'
    } else if d == 5 {
        '5'
    } else if d == 6 {
        '6'
    } else if d == 7 {
        '7'
    } else if d == 8 {
        '8'
    } else {
        '9'
    }
}

/// Appends the decimal text of `n`.
pub fn push_decimal(out: &mut Vec<char>, n: u64)
    ensures
        final(out)@ == old(out)@ + decimal(n as nat),
    decreases n,
{
    if n >= 10 {
        push_decimal(out, n / 10);
    }
    out.push(digit_to_char(n % 10));
    proof {
        if n >= 10 {
            assert(old(out)@ + decimal((n / 10) as nat) + seq![digit_char((n % 10) as int)]
                =~= old(out)@ + decimal(n as nat));
        } else {
            assert(old(out)@.push(digit_char((n % 10) as int)) =~= old(out)@ + decimal(n as nat));
        }
    }
}

/// Decimal text of an unsigned value (`u64::to_string`).
pub fn render_unsigned(n: u64) -> (v: Vec<char>)
    ensures
        v@ == signed_decimal(n as int),
{
    let mut v: Vec<char> = Vec::new();
    push_decimal(&mut v, n);
    assert(v@ =~= decimal(n as nat));
    v
}

/// Decimal text of a signed value (`i64::to_string`).
pub fn render_signed(i: i64) -> (v: Vec<char>)
    ensures
        v@ == signed_decimal(i as int),
{
    let mut v: Vec<char> = Vec::new();
    if i < 0 {
        v.push('-');
        let magnitude: i128 = 0 - (i as i128);
        push_decimal(&mut v, magnitude as u64);
        assert(v@ =~= seq!['-'] + decimal((-i) as nat));
    } else {
        push_decimal(&mut v, i as u64);
        assert(v@ =~= decimal(i as nat));
    }
    v
}

/// A parse result with its value as a mathematical integer.
pub open spec fn widen(r: Result<i128, IntErrorKind>) -> Result<int, IntErrorKind> {
    match r {
        Ok(v) => Ok(v as int),
        Err(e) => Err(e),
    }
}

/// Parses integer text for a type with range `min..=max` (see
/// [`parse_integer`]).
pub fn parse_integer_chars(s: &[char], signed: bool, min: i128, max: i128) -> (r: Result<
    i128,
    IntErrorKind,
>)
    requires
        -0x1_0000_0000_0000_0000 <= min <= 0 <= max <= 0x1_0000_0000_0000_0000,
    ensures
        widen(r) == parse_integer(s@, signed, min as int, max as int),
        r matches Ok(v) ==> min <= v <= max,
{
    if s.len() == 0 {
        return Err(IntErrorKind::Empty);
    }
    if s.len() == 1 && (s[0] == '+' || s[0] == '-') {
        return Err(IntErrorKind::InvalidDigit);
    }
    let positive: bool;
    let start: usize;
    if s[0] == '+' {
        positive = true;
        start = 1;
    } else if s[0] == '-' && signed {
        positive = false;
        start = 1;
    } else {
        positive = true;
        start = 0;
    }
    let ghost target = parse_integer(s@, signed, min as int, max as int);
    assert(target == accumulate(0, s@.skip(start as int), positive, min as int, max as int)) by {
        if start == 1 {
            assert(s@.skip(1) =~= s@.drop_first());
        } else {
            assert(s@.skip(0) =~= s@);
        }
    }
    let mut acc: i128 = 0;
    let mut i: usize = start;
    while i < s.len()
        invariant
            start <= i <= s@.len(),
            -0x1_0000_0000_0000_0000 <= min <= 0 <= max <= 0x1_0000_0000_0000_0000,
            min <= acc <= max,
            target == parse_integer(s@, signed, min as int, max as int),
            target == accumulate(acc as int, s@.skip(i as int), positive, min as int, max as int),
        decreases s@.len() - i,
    {
        let c = s[i];
        assert(s@.skip(i as int)[0] == c);
        assert(s@.skip(i as int).drop_first() =~= s@.skip(i + 1));
        if !('0' <= c && c <= '9') {
            return Err(IntErrorKind::InvalidDigit);
        }
        let d: i128 = (c as u32 - '0' as u32) as i128;
        assert(d == digit_value(c));
        let n: i128 = if positive {
            acc * 10 + d
        } else {
            acc * 10 - d
        };
        if n > max {
            return Err(IntErrorKind::PosOverflow);
        }
        if n < min {
            return Err(IntErrorKind::NegOverflow);
        }
        acc = n;
        i = i + 1;
    }
    assert(s@.skip(i as int) =~= Seq::<char>::empty());
    Ok(acc)
}

} // verus!
