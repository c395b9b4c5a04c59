//! Decimal text of unsigned integers: writing and reading back.
use vstd::prelude::*;

verus! {

/// The character of a decimal digit.
pub open spec fn digit_char(d: int) -> char {
    ((d + 48) as u8) as char
}

/// The value of a decimal digit character.
pub open spec fn digit_value(c: char) -> int {
    (c as int) - 48
}

/// Whether a character is an ASCII decimal digit.
pub open spec fn is_digit(c: char) -> bool {
    '0' <= c && c <= '9'
}

/// The decimal text of a number, without leading zeros ("0" for zero).
pub open spec fn decimal(n: nat) -> Seq<char>
    decreases n,
{
    if n < 10 {
        seq![digit_char(n as int)]
    } else {
        decimal(n / 10).push(digit_char((n % 10) as int))
    }
}

/// The value of a string of decimal digits.
pub open spec fn digits_value(s: Seq<char>) -> nat
    decreases s.len(),
{
    if s.len() == 0 {
        0
    } else {
        (digits_value(s.drop_last()) * 10 + digit_value(s.last())) as nat
    }
}

/// Whether every character of `s` is a decimal digit.
pub open spec fn all_digits(s: Seq<char>) -> bool {
    forall|i: int| 0 <= i < s.len() ==> is_digit(#[trigger] s[i])
}

/// What std's `u64::from_str` gives for a text: an optional `+`, then one or more decimal
/// digits whose value fits in 64 bits.
pub open spec fn parse_u64_spec(s: Seq<char>) -> Option<u64> {
    let d = if s.len() > 0 && s[0] == '+' { s.drop_first() } else { s };
    if d.len() > 0 && all_digits(d) && digits_value(d) <= u64::MAX {
        Some(digits_value(d) as u64)
    } else {
        None
    }
}

/// What std's `u128::from_str` gives for a text: an optional `+`, then one or more decimal
/// digits whose value fits in 128 bits.
pub open spec fn parse_u128_spec(s: Seq<char>) -> Option<u128> {
    let d = if s.len() > 0 && s[0] == '+' { s.drop_first() } else { s };
    if d.len() > 0 && all_digits(d) && digits_value(d) <= u128::MAX {
        Some(digits_value(d) as u128)
    } else {
        None
    }
}

proof fn lemma_decimal_digits(n: nat)
    ensures
        all_digits(decimal(n)),
        decimal(n).len() > 0,
        digits_value(decimal(n)) == n,
    decreases n,
{
    if n < 10 {
        assert(digit_value(digit_char(n as int)) == n);
        assert(decimal(n).drop_last() =~= Seq::<char>::empty());
        assert(digits_value(decimal(n)) == digits_value(Seq::<char>::empty()) * 10 + digit_value(decimal(n).last()));
    } else {
        lemma_decimal_digits(n / 10);
        let s = decimal(n);
        assert(s.drop_last() == decimal(n / 10));
        assert(n == (n / 10) * 10 + n % 10) by (nonlinear_arith);
        assert(s.last() == digit_char((n % 10) as int));
        assert(digits_value(s) == digits_value(s.drop_last()) * 10 + digit_value(s.last()));
        assert(digit_value(digit_char((n % 10) as int)) == n % 10);
        assert forall|i: int| 0 <= i < s.len() implies is_digit(#[trigger] s[i]) by {
            if i < s.len() - 1 {
                assert(s[i] == decimal(n / 10)[i]);
            }
        }
    }
}

/// Reading back the decimal text of a number gives the number.
pub proof fn law_decimal_round_trip(n: u64)
    ensures
        parse_u64_spec(decimal(n as nat)) == Some(n),
{
    lemma_decimal_digits(n as nat);
    let s = decimal(n as nat);
    assert(s[0] != '+') by {
        assert(is_digit(s[0]));
    }
}

/// The decimal text of a number (std `u64::to_string`).
pub fn u64_to_decimal(n: u64) -> (r: String)
    ensures
        r@ == decimal(n as nat),
{
    // digits are collected least significant first
    let mut digits: Vec<char> = Vec::new();
    let mut m = n;
    while m >= 10
        invariant
            m <= n,
            decimal(n as nat) == decimal(m as nat) + digits@.reverse(),
        decreases m,
    {
        let c = ((m % 10) as u8 + 48u8) as char;
        proof {
            assert(c == digit_char((m % 10) as int));
        }
        let ghost before = digits@;
        digits.push(c);
        proof {
            assert(decimal(m as nat) == decimal((m / 10) as nat).push(c));
            assert(digits@.reverse() =~= seq![c] + before.reverse());
            assert(decimal(n as nat) =~= decimal((m / 10) as nat) + digits@.reverse());
        }
        m = m / 10;
    }
    let c = (m as u8 + 48u8) as char;
    let ghost before = digits@;
    digits.push(c);
    proof {
        assert(c == digit_char(m as int));
        assert(decimal(m as nat) == seq![c]);
        assert(digits@.reverse() =~= seq![c] + before.reverse());
        assert(decimal(n as nat) =~= digits@.reverse());
    }
    let mut out: Vec<char> = Vec::new();
    let mut i = digits.len();
    while i > 0
        invariant
            i <= digits.len(),
            out@ == digits@.reverse().take((digits.len() - i) as int),
        decreases i,
    {
        i -= 1;
        out.push(digits[i]);
        proof {
            let k = (digits.len() - i) as int;
            assert(digits@.reverse().take(k) =~= digits@.reverse().take(k - 1).push(digits@[i as int]));
        }
    }
    proof {
        assert(digits@.reverse().take(digits.len() as int) =~= digits@.reverse());
    }
    crate::text::string_from_chars(&out)
}

proof fn lemma_digits_value_monotone(s: Seq<char>, k: int)
    requires
        0 <= k <= s.len(),
        all_digits(s),
    ensures
        digits_value(s.take(k)) <= digits_value(s),
    decreases s.len() - k,
{
    if k < s.len() {
        lemma_digits_value_monotone(s, k + 1);
        assert(s.take(k + 1).drop_last() == s.take(k));
        assert(is_digit(s[k]));
        let a = digits_value(s.take(k));
        assert(a * 10 + digit_value(s[k]) >= a) by (nonlinear_arith)
            requires
                digit_value(s[k]) >= 0,
        ;
    } else {
        assert(s.take(k) =~= s);
    }
}

/// Parse a decimal unsigned 128-bit number as std's `u128::from_str` does.
pub fn parse_u128(s: &str) -> (r: Option<u128>)
    ensures
        r == parse_u128_spec(s@),
{
    let chars = crate::text::chars_of(s);
    let start: usize = if chars.len() > 0 && chars[0] == '+' { 1 } else { 0 };
    let ghost d = if s@.len() > 0 && s@[0] == '+' { s@.drop_first() } else { s@ };
    proof {
        assert(d =~= chars@.subrange(start as int, chars@.len() as int));
    }
    if start >= chars.len() {
        return None;
    }
    if !rest_all_digits(&chars, start) {
        proof {
            let j = choose|j: int| start <= j < chars@.len() && !is_digit(#[trigger] chars@[j]);
            assert(d[j - start] == chars@[j]);
        }
        return None;
    }
    proof {
        assert forall|j: int| 0 <= j < d.len() implies is_digit(#[trigger] d[j]) by {
            assert(d[j] == chars@[start + j]);
        }
    }
    let mut value: u128 = 0;
    let mut i = start;
    while i < chars.len()
        invariant
            start <= i <= chars.len(),
            d == chars@.subrange(start as int, chars@.len() as int),
            d == (if s@.len() > 0 && s@[0] == '+' { s@.drop_first() } else { s@ }),
            all_digits(d),
            value == digits_value(d.take(i - start)),
        decreases chars.len() - i,
    {
        let c = chars[i];
        let ghost k = (i - start) as int;
        proof {
            assert(d.take(k + 1).drop_last() =~= d.take(k));
            assert(d.take(k + 1).last() == c);
            assert(is_digit(d[k]));
        }
        let dv = (c as u32 - 48) as u128;
        proof {
            assert(dv == digit_value(c));
        }
        if value > (u128::MAX - dv) / 10 {
            proof {
                assert(value * 10 + dv > u128::MAX) by (nonlinear_arith)
                    requires
                        value > (u128::MAX - dv) / 10,
                        dv <= 9,
                ;
                assert(digits_value(d.take(k + 1)) == digits_value(d.take(k)) * 10 + digit_value(c));
                lemma_digits_value_monotone(d, k + 1);
                assert(digits_value(d) > u128::MAX);
            }
            return None;
        }
        value = value * 10 + dv;
        i += 1;
    }
    proof {
        assert(d.take(d.len() as int) =~= d);
    }
    Some(value)
}

/// Parse a decimal unsigned 64-bit number as std's `u64::from_str` does.
pub fn parse_u64(s: &str) -> (r: Option<u64>)
    ensures
        r == parse_u64_spec(s@),
{
    match parse_u128(s) {
        Some(v) => if v <= u64::MAX as u128 { Some(v as u64) } else { None },
        None => None,
    }
}

/// Whether every character of `chars` from position `from` on is a decimal digit.
fn rest_all_digits(chars: &Vec<char>, from: usize) -> (r: bool)
    ensures
        r == forall|j: int| from <= j < chars@.len() ==> is_digit(#[trigger] chars@[j]),
{
    let mut i = from;
    while i < chars.len()
        invariant
            from <= i,
            forall|j: int| from <= j < i ==> is_digit(#[trigger] chars@[j]),
        decreases chars.len() - i,
    {
        if chars[i] < '0' || chars[i] > '9' {
            return false;
        }
        i += 1;
    }
    true
}


/// The decimal text of a number is a non-empty string of digits.
pub proof fn lemma_decimal_is_digits(n: nat)
    ensures
        all_digits(decimal(n)),
        decimal(n).len() > 0,
{
    lemma_decimal_digits(n);
}

/// The decimal form of an integer, with a minus sign when negative.
pub open spec fn signed_decimal(n: int) -> Seq<char> {
    if n < 0 { seq!['-'] + decimal((-n) as nat) } else { decimal(n as nat) }
}

/// The decimal form of a signed integer (see [`signed_decimal`]).
pub fn i64_to_decimal(n: i64) -> (r: String)
    ensures
        r@ == signed_decimal(n as int),
{
    if n < 0 {
        let magnitude: u64 = (-(n as i128)) as u64;
        let digits = u64_to_decimal(magnitude);
        proof {
            reveal_strlit("-");
        }
        crate::text::concat("-", digits.as_str())
    } else {
        u64_to_decimal(n as u64)
    }
}

} // verus!
