//! Decimal text for integers, as bytes and as strings.

use vstd::prelude::*;

verus! {

/// The ASCII byte of the decimal digit `d`.
pub open spec fn digit_byte(d: int) -> u8
    recommends
        0 <= d < 10,
{
    (48 + d) as u8
}

/// The decimal digits of `n`, most significant first, without leading zeros.
pub open spec fn decimal_bytes(n: nat) -> Seq<u8>
    decreases n,
{
    if n < 10 {
        seq![digit_byte(n as int)]
    } else {
        decimal_bytes(n / 10).push(digit_byte((n % 10) as int))
    }
}

/// The decimal digits of `n` as characters.
pub open spec fn decimal_chars(n: nat) -> Seq<char> {
    decimal_bytes(n).map_values(|b: u8| b as char)
}

/// The decimal text of a signed integer: a minus sign before the digits of
/// a negative one.
pub open spec fn signed_decimal_chars(n: int) -> Seq<char> {
    if n < 0 {
        seq!['-'] + decimal_chars((-n) as nat)
    } else {
        decimal_chars(n as nat)
    }
}

/// Whether `b` is an ASCII decimal digit.
pub open spec fn is_digit(b: u8) -> bool {
    48 <= b <= 57
}

/// The number that a run of decimal digits denotes.
pub open spec fn digits_value(s: Seq<u8>) -> nat
    decreases s.len(),
{
    if s.len() == 0 {
        0
    } else {
        (digits_value(s.drop_last()) * 10 + (s.last() - 48)) as nat
    }
}

/// Whether every byte of `s` is a decimal digit.
pub open spec fn all_digits(s: Seq<u8>) -> bool {
    forall|i: int| 0 <= i < s.len() ==> is_digit(#[trigger] s[i])
}

/// What a signed decimal literal denotes: an optional `+` or `-`, then at
/// least one digit and nothing else. `None` where the text has another shape.
pub open spec fn signed_value(s: Seq<u8>) -> Option<int> {
    if s.len() == 0 {
        None
    } else if s[0] == 45 || s[0] == 43 {
        let rest = s.subrange(1, s.len() as int);
        if rest.len() > 0 && all_digits(rest) {
            Some(
                if s[0] == 45 {
                    -(digits_value(rest) as int)
                } else {
                    digits_value(rest) as int
                },
            )
        } else {
            None
        }
    } else if all_digits(s) {
        Some(digits_value(s) as int)
    } else {
        None
    }
}

/// What `parse_decimal` returns on `s`: the value of the literal where it
/// has one that fits in 64 signed bits.
pub open spec fn parsed_decimal(s: Seq<u8>) -> Option<i64> {
    match signed_value(s) {
        Some(v) => if i64::MIN <= v <= i64::MAX {
            Some(v as i64)
        } else {
            None
        },
        None => None,
    }
}

/// The digits of a number are digits, and there is at least one.
pub proof fn lemma_decimal_bytes_digits(n: nat)
    ensures
        decimal_bytes(n).len() >= 1,
        all_digits(decimal_bytes(n)),
    decreases n,
{
    if n >= 10 {
        lemma_decimal_bytes_digits(n / 10);
    }
}

/// Reading the digits of a number gives the number back.
pub proof fn lemma_decimal_round_trip(n: nat)
    ensures
        digits_value(decimal_bytes(n)) == n,
    decreases n,
{
    if n < 10 {
        let s = decimal_bytes(n);
        assert(s.drop_last() =~= Seq::<u8>::empty());
        assert(digits_value(s.drop_last()) == 0);
    } else {
        lemma_decimal_round_trip(n / 10);
        let s = decimal_bytes(n);
        assert(s.drop_last() =~= decimal_bytes(n / 10));
    }
}

/// Two numbers with the same digits are the same number.
pub proof fn lemma_decimal_injective(a: nat, b: nat)
    requires
        decimal_bytes(a) == decimal_bytes(b),
    ensures
        a == b,
{
    lemma_decimal_round_trip(a);
    lemma_decimal_round_trip(b);
}

/// Two numbers with the same decimal text are the same number.
pub proof fn lemma_decimal_chars_injective(a: nat, b: nat)
    requires
        decimal_chars(a) == decimal_chars(b),
    ensures
        a == b,
{
    let x = decimal_bytes(a);
    let y = decimal_bytes(b);
    lemma_decimal_bytes_digits(a);
    lemma_decimal_bytes_digits(b);
    assert(x.len() == decimal_chars(a).len());
    assert(y.len() == decimal_chars(b).len());
    assert forall|i: int| 0 <= i < x.len() implies x[i] == y[i] by {
        assert(decimal_chars(a)[i] == x[i] as char);
        assert(decimal_chars(b)[i] == y[i] as char);
        assert(is_digit(x[i]) && is_digit(y[i]));
        assert((x[i] as char) as u8 == x[i]);
        assert((y[i] as char) as u8 == y[i]);
    }
    assert(x =~= y);
    lemma_decimal_injective(a, b);
}

/// Appends the decimal digits of `n` to `buf`.
pub fn push_decimal(buf: &mut Vec<u8>, n: u64)
    ensures
        final(buf)@ == old(buf)@ + decimal_bytes(n as nat),
    decreases n,
{
    if n >= 10 {
        push_decimal(buf, n / 10);
    }
    let d: u8 = (n % 10) as u8;
    buf.push(48 + d);
    assert(buf@ =~= old(buf)@ + decimal_bytes(n as nat));
}

/// The one-character text of the decimal digit `d`.
fn digit_str(d: u8) -> (s: &'static str)
    requires
        d < 10,
    ensures
        s@ == seq![digit_byte(d as int) as char],
{
    proof {
        reveal_strlit("0");
        reveal_strlit("1");
        reveal_strlit("2");
        reveal_strlit("3");
        reveal_strlit("4");
        reveal_strlit("5");
        reveal_strlit("6");
        reveal_strlit("7");
        reveal_strlit("8");
        reveal_strlit("9");
    }
    let s = if d == 0 {
        "0"
    } else if d == 1 {
        "1"
    } else if d == 2 {
        "2"
    } else if d == 3 {
        "3"
    } else if d == 4 {
        "4"
    } else if d == 5 {
        "5"
    } else if d == 6 {
        "6"
    } else if d == 7 {
        "7"
    } else if d == 8 {
        "8"
    } else {
        "9"
    };
    assert(s@ =~= seq![digit_byte(d as int) as char]);
    s
}

/// Appends the decimal text of `n` to `out`.
pub fn append_decimal(out: &mut String, n: u64)
    ensures
        final(out)@ == old(out)@ + decimal_chars(n as nat),
    decreases n,
{
    if n >= 10 {
        append_decimal(out, n / 10);
    }
    let d: u8 = (n % 10) as u8;
    out.append(digit_str(d));
    assert(out@ =~= old(out)@ + decimal_chars(n as nat));
}

/// The decimal text of `n`.
pub fn decimal_string(n: u64) -> (s: String)
    ensures
        s@ == decimal_chars(n as nat),
{
    let mut s = String::new();
    append_decimal(&mut s, n);
    assert(s@ =~= decimal_chars(n as nat));
    s
}

/// The decimal text of a signed `n`.
pub fn signed_decimal_string(n: i64) -> (s: String)
    ensures
        s@ == signed_decimal_chars(n as int),
{
    if n < 0 {
        let magnitude: u64 = if n == i64::MIN {
            9223372036854775808u64
        } else {
            (-n) as u64
        };
        proof {
            reveal_strlit("-");
        }
        let mut s = String::from_str("-");
        append_decimal(&mut s, magnitude);
        assert(s@ =~= signed_decimal_chars(n as int));
        s
    } else {
        decimal_string(n as u64)
    }
}

/// A run of digits denotes at least what any of its prefixes denotes.
pub proof fn lemma_digits_value_prefix(s: Seq<u8>, k: int)
    requires
        0 <= k <= s.len(),
        all_digits(s),
    ensures
        digits_value(s.take(k)) <= digits_value(s),
    decreases s.len(),
{
    if k == s.len() {
        assert(s.take(k) =~= s);
    } else {
        lemma_digits_value_prefix(s.drop_last(), k);
        assert(s.drop_last().take(k) =~= s.take(k));
    }
}

/// Whether every byte of `s` from `start` on is a decimal digit.
fn digits_from(s: &[u8], start: usize) -> (ok: bool)
    requires
        start <= s.len(),
    ensures
        ok == all_digits(s@.subrange(start as int, s.len() as int)),
{
    let mut i: usize = start;
    while i < s.len()
        invariant
            start <= i <= s.len(),
            forall|j: int| start <= j < i ==> is_digit(#[trigger] s@[j]),
        decreases s.len() - i,
    {
        if s[i] < 48 || s[i] > 57 {
            proof {
                let rest = s@.subrange(start as int, s.len() as int);
                assert(rest[i - start] == s@[i as int]);
            }
            return false;
        }
        i += 1;
    }
    proof {
        let rest = s@.subrange(start as int, s.len() as int);
        assert forall|j: int| 0 <= j < rest.len() implies is_digit(#[trigger] rest[j]) by {
            assert(rest[j] == s@[start + j]);
        }
    }
    true
}

/// The number that the digits of `s` from `start` on denote, where it is at
/// most `limit`.
fn digits_magnitude(s: &[u8], start: usize, limit: u64) -> (r: Option<u64>)
    requires
        start <= s.len(),
        all_digits(s@.subrange(start as int, s.len() as int)),
    ensures
        r == (if digits_value(s@.subrange(start as int, s.len() as int)) <= limit {
            Some(digits_value(s@.subrange(start as int, s.len() as int)) as u64)
        } else {
            None
        }),
{
    let ghost rest = s@.subrange(start as int, s.len() as int);
    let mut acc: u64 = 0;
    let mut i: usize = start;
    proof {
        assert(rest.take(0) =~= Seq::<u8>::empty());
    }
    while i < s.len()
        invariant
            start <= i <= s.len(),
            rest == s@.subrange(start as int, s.len() as int),
            all_digits(rest),
            acc == digits_value(rest.take(i - start)),
            acc <= limit,
        decreases s.len() - i,
    {
        proof {
            assert(rest[i - start] == s@[i as int]);
        }
        let d: u64 = (s[i] - 48) as u64;
        proof {
            let next = rest.take(i - start + 1);
            assert(next.drop_last() =~= rest.take(i - start));
            assert(next.last() == s@[i as int]);
            assert(digits_value(next) == acc * 10 + d);
            lemma_digits_value_prefix(rest, i - start + 1);
        }
        if d > limit || acc > (limit - d) / 10 {
            return None;
        }
        acc = acc * 10 + d;
        i += 1;
    }
    proof {
        assert(rest.take(i - start) =~= rest);
    }
    Some(acc)
}

/// Reads a signed decimal literal: an optional `+` or `-`, then digits only.
/// `None` where the text has another shape or its value does not fit.
pub fn parse_decimal(s: &[u8]) -> (r: Option<i64>)
    ensures
        r == parsed_decimal(s@),
{
    if s.len() == 0 {
        return None;
    }
    let negative = s[0] == 45;
    let start: usize = if s[0] == 45 || s[0] == 43 {
        1
    } else {
        0
    };
    proof {
        if start == 0 {
            assert(s@.subrange(0, s.len() as int) =~= s@);
        }
    }
    if start == s.len() || !digits_from(s, start) {
        return None;
    }
    if negative {
        match digits_magnitude(s, start, 9223372036854775808u64) {
            Some(m) => if m == 9223372036854775808u64 {
                Some(i64::MIN)
            } else {
                Some(-(m as i64))
            },
            None => None,
        }
    } else {
        match digits_magnitude(s, start, 9223372036854775807u64) {
            Some(m) => Some(m as i64),
            None => None,
        }
    }
}

/// What `parse_unsigned` returns on `s`: the number that a run of at least
/// one digit denotes, where it fits in 64 bits.
pub open spec fn parsed_unsigned(s: Seq<u8>) -> Option<u64> {
    if s.len() > 0 && all_digits(s) && digits_value(s) <= u64::MAX {
        Some(digits_value(s) as u64)
    } else {
        None
    }
}

/// Reads an unsigned decimal number: digits only, at least one. `None`
/// where the text has another shape or its value does not fit.
pub fn parse_unsigned(s: &[u8]) -> (r: Option<u64>)
    ensures
        r == parsed_unsigned(s@),
{
    assert(s@.subrange(0, s.len() as int) =~= s@);
    if s.len() == 0 || !digits_from(s, 0) {
        return None;
    }
    digits_magnitude(s, 0, u64::MAX)
}

/// The decimal text of a number is written in UTF-8 as its decimal digits.
pub proof fn lemma_decimal_chars_bytes(n: nat)
    ensures
        vstd::utf8::encode_utf8(decimal_chars(n)) == decimal_bytes(n),
{
    let chars = decimal_chars(n);
    let bytes = decimal_bytes(n);
    lemma_decimal_bytes_digits(n);
    assert forall|i: int| 0 <= i < chars.len() implies '\0' <= #[trigger] chars[i] <= '\u{7f}' by {
        assert(chars[i] == bytes[i] as char);
        assert(is_digit(bytes[i]));
    }
    vstd::utf8::is_ascii_chars_encode_utf8(chars);
    let encoded = vstd::utf8::encode_utf8(chars);
    assert forall|i: int| 0 <= i < encoded.len() implies encoded[i] == bytes[i] by {
        assert(chars[i] as u8 == encoded[i]);
        assert(chars[i] == bytes[i] as char);
        assert(is_digit(bytes[i]));
        assert((bytes[i] as char) as u8 == bytes[i]);
    }
    assert(encoded =~= bytes);
}

/// The address of a server: the host, a colon, the port.
pub open spec fn address_chars(host: Seq<char>, port: u16) -> Seq<char> {
    host + seq![':'] + decimal_chars(port as nat)
}

/// The address of a server: the host, a colon, the port.
pub fn address_string(host: &str, port: u16) -> (addr: String)
    ensures
        addr@ == address_chars(host@, port),
{
    proof {
        reveal_strlit(":");
    }
    let digits = decimal_string(port as u64);
    let addr = String::from_str(host).concat(":").concat(digits.as_str());
    assert(addr@ =~= address_chars(host@, port));
    addr
}

} // verus!
