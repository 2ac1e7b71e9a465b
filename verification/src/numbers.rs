//! Decimal and hexadecimal text of integers, as `str::parse` and `{}` / `{:02x}` give them.
use vstd::prelude::*;

use crate::text::is_digit;

verus! {

/// The value of a decimal digit.
pub open spec fn digit_value(c: char) -> int {
    (c as int) - ('0' as int)
}

/// Every character is an ASCII decimal digit.
pub open spec fn all_digits(s: Seq<char>) -> bool {
    forall|i: int| 0 <= i < s.len() ==> is_digit(#[trigger] s[i])
}

/// The number that a string of decimal digits denotes.
pub open spec fn decimal_value(s: Seq<char>) -> int
    decreases s.len(),
{
    if s.len() == 0 {
        0
    } else {
        decimal_value(s.drop_last()) * 10 + digit_value(s.last())
    }
}

/// The digits after an optional leading `'+'`.
pub open spec fn unsigned_digits(s: Seq<char>) -> Seq<char> {
    if s.len() > 0 && s[0] == '+' {
        s.drop_first()
    } else {
        s
    }
}

/// The number that `str::parse` reads from `s` for an unsigned type, before the range check.
pub open spec fn spec_parse_nat(s: Seq<char>) -> Option<nat> {
    let d = unsigned_digits(s);
    if d.len() > 0 && all_digits(d) {
        Some(decimal_value(d) as nat)
    } else {
        None
    }
}

/// `str::parse::<u64>`.
pub open spec fn spec_parse_u64(s: Seq<char>) -> Option<u64> {
    match spec_parse_nat(s) {
        Some(v) => if v <= u64::MAX {
            Some(v as u64)
        } else {
            None
        },
        None => None,
    }
}

/// `str::parse::<usize>`.
pub open spec fn spec_parse_usize(s: Seq<char>) -> Option<usize> {
    match spec_parse_nat(s) {
        Some(v) => if v <= usize::MAX {
            Some(v as usize)
        } else {
            None
        },
        None => None,
    }
}

/// The character of a decimal digit.
pub open spec fn digit_char(d: int) -> char {
    if d == 0 {
        '0'
    } else if d == 1 {
        '1'
    } else if d == 2 {
        '2'
    } else if d == 3 {
        '3'
    } else if d == 4 {
        '4'
    } else if d == 5 {
        '5'
    } else if d == 6 {
        '6'
    } else if d == 7 {
        '7'
    } else if d == 8 {
        '8'
    } else {
        '9'
    }
}

/// The character of a decimal digit.
fn digit_char_of(d: u64) -> (c: char)
    requires
        d < 10,
    ensures
        c == digit_char(d as int),
        digit_value(c) == d,
        is_digit(c),
{
    if d == 0 {
        '0'
    } else if d == 1 {
        '1'
    } else if d == 2 {
        '2'
    } else if d == 3 {
        '3'
    } else if d == 4 {
        '4'
    } else if d == 5 {
        '5'
    } else if d == 6 {
        '6'
    } else if d == 7 {
        '7'
    } else if d == 8 {
        '8'
    } else {
        '9'
    }
}

pub proof fn lemma_digit_char(d: int)
    requires
        0 <= d < 10,
    ensures
        digit_value(digit_char(d)) == d,
        is_digit(digit_char(d)),
        digit_char(d) != '+',
{
}

/// The decimal text of a number, as `{}` formats it.
pub open spec fn decimal_chars(n: nat) -> Seq<char>
    decreases n,
{
    if n < 10 {
        seq![digit_char(n as int)]
    } else {
        decimal_chars(n / 10).push(digit_char((n % 10) as int))
    }
}

proof fn lemma_decimal_nonneg(s: Seq<char>)
    requires
        all_digits(s),
    ensures
        decimal_value(s) >= 0,
    decreases s.len(),
{
    if s.len() > 0 {
        assert(is_digit(s[s.len() - 1]));
        lemma_decimal_nonneg(s.drop_last());
    }
}

proof fn lemma_decimal_prefix(s: Seq<char>, k: int)
    requires
        all_digits(s),
        0 <= k <= s.len(),
    ensures
        decimal_value(s.take(k)) <= decimal_value(s),
    decreases s.len() - k,
{
    if k < s.len() {
        assert(s.drop_last().take(k) =~= s.take(k));
        assert(is_digit(s[s.len() - 1]));
        lemma_decimal_nonneg(s.drop_last());
        lemma_decimal_prefix(s.drop_last(), k);
    } else {
        assert(s.take(k) =~= s);
    }
}

/// Decimal text read back gives the number.
pub proof fn lemma_decimal_round_trip(n: nat)
    ensures
        decimal_chars(n).len() > 0,
        all_digits(decimal_chars(n)),
        decimal_value(decimal_chars(n)) == n,
        decimal_chars(n)[0] != '+',
    decreases n,
{
    if n < 10 {
        lemma_digit_char(n as int);
        assert(decimal_chars(n).drop_last() =~= Seq::<char>::empty());
        assert(decimal_value(decimal_chars(n)) == decimal_value(Seq::<char>::empty()) * 10
            + digit_value(decimal_chars(n).last()));
    } else {
        lemma_digit_char((n % 10) as int);
        lemma_decimal_round_trip(n / 10);
        let d = decimal_chars(n / 10);
        assert(decimal_chars(n).last() == digit_char((n % 10) as int));
        assert((n / 10) * 10 + n % 10 == n);
        assert(decimal_chars(n).drop_last() =~= d);
        assert(decimal_chars(n)[0] == d[0]);
        let dc = decimal_chars(n);
        assert(dc.len() > 0);
        assert(decimal_value(dc) == decimal_value(dc.drop_last()) * 10 + digit_value(dc.last()));
        assert(decimal_value(dc) == (n / 10) * 10 + n % 10);
    }
}

/// `str::parse` reads back what `{}` wrote.
pub proof fn lemma_parse_u64_decimal(n: u64)
    ensures
        spec_parse_u64(decimal_chars(n as nat)) == Some(n),
{
    lemma_decimal_round_trip(n as nat);
}

/// The value of the decimal digit `c`.
fn digit_of(c: char) -> (d: u64)
    requires
        is_digit(c),
    ensures
        d == digit_value(c),
        d < 10,
{
    (c as u32 - '0' as u32) as u64
}

/// `str::parse::<u64>`.
pub fn parse_u64(s: &[char]) -> (r: Option<u64>)
    ensures
        r == spec_parse_u64(s@),
{
    let start: usize = if s.len() > 0 && s[0] == '+' {
        1
    } else {
        0
    };
    let ghost d = unsigned_digits(s@);
    assert(d =~= s@.skip(start as int));
    if start == s.len() {
        assert(d.len() == 0);
        return None;
    }
    let mut value: u64 = 0;
    let mut overflow = false;
    let mut i = start;
    while i < s.len()
        invariant
            start <= i <= s@.len(),
            d == s@.skip(start as int),
            d == unsigned_digits(s@),
            forall|j: int| 0 <= j < i - start ==> is_digit(#[trigger] d[j]),
            !overflow ==> value == decimal_value(d.take(i - start)),
            overflow ==> decimal_value(d.take(i - start)) > u64::MAX,
        decreases s@.len() - i,
    {
        let c = s[i];
        if !('0' <= c && c <= '9') {
            assert(!is_digit(d[i - start]));
            return None;
        }
        let digit = digit_of(c);
        assert(d.take(i - start + 1).drop_last() =~= d.take(i - start));
        if !overflow {
            if value > (u64::MAX - digit) / 10 {
                overflow = true;
            } else {
                value = value * 10 + digit;
            }
        }
        proof {
            if overflow {
                assert(decimal_value(d.take(i - start + 1)) == decimal_value(d.take(i - start))
                    * 10 + digit_value(c));
            }
        }
        i += 1;
    }
    assert(d.take(d.len() as int) =~= d);
    if overflow {
        None
    } else {
        Some(value)
    }
}

/// `str::parse::<usize>`.
pub fn parse_usize(s: &[char]) -> (r: Option<usize>)
    ensures
        r == spec_parse_usize(s@),
{
    match parse_u64(s) {
        Some(v) => if v <= usize::MAX as u64 {
            Some(v as usize)
        } else {
            None
        },
        None => {
            proof {
                if spec_parse_nat(s@) is Some {
                    assert(spec_parse_nat(s@)->0 > u64::MAX);
                }
            }
            None
        },
    }
}

/// The decimal text of `n` (`n.to_string()`).
pub fn decimal(n: u64) -> (r: Vec<char>)
    ensures
        r@ == decimal_chars(n as nat),
    decreases n,
{
    if n < 10 {
        let c = digit_char_of(n);
        vec![c]
    } else {
        let mut r = decimal(n / 10);
        let c = digit_char_of(n % 10);
        r.push(c);
        r
    }
}

/// The hexadecimal digit of a value below 16.
pub open spec fn hex_digit(v: int, upper_case: bool) -> char {
    if v < 10 {
        digit_char(v)
    } else if upper_case {
        if v == 10 {
            'A'
        } else if v == 11 {
            'B'
        } else if v == 12 {
            'C'
        } else if v == 13 {
            'D'
        } else if v == 14 {
            'E'
        } else {
            'F'
        }
    } else {
        if v == 10 {
            'a'
        } else if v == 11 {
            'b'
        } else if v == 12 {
            'c'
        } else if v == 13 {
            'd'
        } else if v == 14 {
            'e'
        } else {
            'f'
        }
    }
}

/// Two hexadecimal digits per byte (`{:02x}` or `{:02X}` of each byte).
pub open spec fn hex_chars(b: Seq<u8>, upper_case: bool) -> Seq<char>
    decreases b.len(),
{
    if b.len() == 0 {
        seq![]
    } else {
        hex_chars(b.drop_last(), upper_case) + seq![
            hex_digit((b.last() / 16) as int, upper_case),
            hex_digit((b.last() % 16) as int, upper_case),
        ]
    }
}

pub fn hex_digit_char(v: u8, upper_case: bool) -> (c: char)
    requires
        v < 16,
    ensures
        c == hex_digit(v as int, upper_case),
{
    if v < 10 {
        digit_char_of(v as u64)
    } else if upper_case {
        if v == 10 {
            'A'
        } else if v == 11 {
            'B'
        } else if v == 12 {
            'C'
        } else if v == 13 {
            'D'
        } else if v == 14 {
            'E'
        } else {
            'F'
        }
    } else {
        if v == 10 {
            'a'
        } else if v == 11 {
            'b'
        } else if v == 12 {
            'c'
        } else if v == 13 {
            'd'
        } else if v == 14 {
            'e'
        } else {
            'f'
        }
    }
}

/// Two hexadecimal digits per byte.
pub fn hex(b: &[u8], upper_case: bool) -> (r: Vec<char>)
    ensures
        r@ == hex_chars(b@, upper_case),
        r@.len() == 2 * b@.len(),
{
    let mut r: Vec<char> = Vec::new();
    for i in 0..b.len()
        invariant
            r@ == hex_chars(b@.take(i as int), upper_case),
            r@.len() == 2 * i,
    {
        let byte = b[i];
        r.push(hex_digit_char(byte / 16, upper_case));
        r.push(hex_digit_char(byte % 16, upper_case));
        assert(b@.take(i + 1 as int).drop_last() =~= b@.take(i as int));
        assert(hex_chars(b@.take(i + 1 as int), upper_case) =~= hex_chars(
            b@.take(i as int),
            upper_case,
        ) + seq![hex_digit((byte / 16) as int, upper_case), hex_digit((byte % 16) as int, upper_case)]);
    }
    assert(b@.take(b@.len() as int) =~= b@);
    r
}

/// The value of a hexadecimal digit.
pub open spec fn hex_value(c: char) -> int {
    if is_digit(c) {
        digit_value(c)
    } else if 'a' <= c && c <= 'f' {
        (c as int) - 87
    } else {
        (c as int) - 55
    }
}

/// Every character is a hexadecimal digit.
pub open spec fn all_hex(s: Seq<char>) -> bool {
    forall|i: int| 0 <= i < s.len() ==> crate::text::is_hex(#[trigger] s[i])
}

/// The number that a string of hexadecimal digits denotes.
pub open spec fn hexadecimal_value(s: Seq<char>) -> int
    decreases s.len(),
{
    if s.len() == 0 {
        0
    } else {
        hexadecimal_value(s.drop_last()) * 16 + hex_value(s.last())
    }
}

/// `u32::from_str_radix(s, 16)`.
pub open spec fn spec_parse_hex_u32(s: Seq<char>) -> Option<u32> {
    let d = unsigned_digits(s);
    if d.len() > 0 && all_hex(d) && hexadecimal_value(d) <= u32::MAX {
        Some(hexadecimal_value(d) as u32)
    } else {
        None
    }
}

proof fn lemma_hex_nonneg(s: Seq<char>)
    requires
        all_hex(s),
    ensures
        hexadecimal_value(s) >= 0,
    decreases s.len(),
{
    if s.len() > 0 {
        assert(crate::text::is_hex(s[s.len() - 1]));
        lemma_hex_nonneg(s.drop_last());
    }
}

proof fn lemma_hex_prefix(s: Seq<char>, k: int)
    requires
        all_hex(s),
        0 <= k <= s.len(),
    ensures
        hexadecimal_value(s.take(k)) <= hexadecimal_value(s),
    decreases s.len() - k,
{
    if k < s.len() {
        assert(s.drop_last().take(k) =~= s.take(k));
        assert(crate::text::is_hex(s[s.len() - 1]));
        lemma_hex_nonneg(s.drop_last());
        lemma_hex_prefix(s.drop_last(), k);
    } else {
        assert(s.take(k) =~= s);
    }
}

/// `u32::from_str_radix(s, 16)`.
pub fn parse_hex_u32(s: &[char]) -> (r: Option<u32>)
    ensures
        r == spec_parse_hex_u32(s@),
{
    let start: usize = if s.len() > 0 && s[0] == '+' {
        1
    } else {
        0
    };
    let ghost d = unsigned_digits(s@);
    assert(d =~= s@.skip(start as int));
    if start == s.len() {
        assert(d.len() == 0);
        return None;
    }
    let mut value: u32 = 0;
    let mut overflow = false;
    let mut i = start;
    while i < s.len()
        invariant
            start <= i <= s@.len(),
            d == s@.skip(start as int),
            d == unsigned_digits(s@),
            forall|j: int| 0 <= j < i - start ==> crate::text::is_hex(#[trigger] d[j]),
            !overflow ==> value == hexadecimal_value(d.take(i - start)),
            overflow ==> hexadecimal_value(d.take(i - start)) > u32::MAX,
        decreases s@.len() - i,
    {
        let c = s[i];
        let v: u32 = if '0' <= c && c <= '9' {
            c as u32 - 48
        } else if 'a' <= c && c <= 'f' {
            c as u32 - 87
        } else if 'A' <= c && c <= 'F' {
            c as u32 - 55
        } else {
            assert(!crate::text::is_hex(d[i - start]));
            return None;
        };
        assert(v == hex_value(c));
        assert(d.take(i - start + 1).drop_last() =~= d.take(i - start));
        proof {
            if overflow {
                lemma_hex_nonneg(d.take(i - start));
            }
        }
        if !overflow {
            if value > (u32::MAX - v) / 16 {
                overflow = true;
            } else {
                value = value * 16 + v;
            }
        }
        proof {
            if overflow {
                assert(hexadecimal_value(d.take(i - start + 1)) == hexadecimal_value(
                    d.take(i - start),
                ) * 16 + hex_value(c));
            }
        }
        i += 1;
    }
    assert(d.take(d.len() as int) =~= d);
    if overflow {
        None
    } else {
        Some(value)
    }
}

} // verus!
