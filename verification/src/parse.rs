//! Parsing of operator-supplied breakpoint addresses: a hexadecimal literal
//! with an optional `0x`/`0X` prefix and an optional leading `+`, exactly
//! the inputs the standard unsigned hexadecimal parser accepts.

use vstd::prelude::*;

verus! {

/// `c` is a hexadecimal digit (either case).
pub open spec fn is_hex_digit(c: char) -> bool {
    ('0' as int <= c as int && c as int <= '9' as int) || ('a' as int <= c as int && c as int
        <= 'f' as int) || ('A' as int <= c as int && c as int <= 'F' as int)
}

/// The numeric value of a hexadecimal digit; 0 for any other character.
pub open spec fn hex_digit_value(c: char) -> int {
    if '0' as int <= c as int && c as int <= '9' as int {
        c as int - '0' as int
    } else if 'a' as int <= c as int && c as int <= 'f' as int {
        c as int - 'a' as int + 10
    } else if 'A' as int <= c as int && c as int <= 'F' as int {
        c as int - 'A' as int + 10
    } else {
        0
    }
}

/// Every character of `s` is a hexadecimal digit.
pub open spec fn all_hex(s: Seq<char>) -> bool {
    forall|i: int| 0 <= i < s.len() ==> is_hex_digit(#[trigger] s[i])
}

/// The unbounded value of `s` read as a hexadecimal numeral.
pub open spec fn hex_value(s: Seq<char>) -> int
    decreases s.len(),
{
    if s.len() == 0 {
        0
    } else {
        hex_value(s.drop_last()) * 16 + hex_digit_value(s.last())
    }
}

/// `s` without a leading `0x` or `0X`, if it has one.
pub open spec fn strip_radix_prefix(s: Seq<char>) -> Seq<char> {
    if s.len() >= 2 && s[0] == '0' && (s[1] == 'x' || s[1] == 'X') {
        s.skip(2)
    } else {
        s
    }
}

/// The address denoted by `s`: after the optional radix prefix and an
/// optional single `+`, at least one hexadecimal digit whose value fits the
/// machine word. A sign other than `+` is rejected, as the standard
/// unsigned parsers reject it.
pub open spec fn spec_parse_digits(digits: Seq<char>) -> Option<usize> {
    if digits.len() == 0 || !all_hex(digits) {
        None
    } else if hex_value(digits) <= usize::MAX {
        Some(hex_value(digits) as usize)
    } else {
        None
    }
}

pub open spec fn spec_parse_address(s: Seq<char>) -> Option<usize> {
    let t = strip_radix_prefix(s);
    let digits = if t.len() >= 1 && t[0] == '+' {
        t.skip(1)
    } else {
        t
    };
    spec_parse_digits(digits)
}

proof fn lemma_hex_value_nonneg(s: Seq<char>)
    ensures
        hex_value(s) >= 0,
    decreases s.len(),
{
    if s.len() > 0 {
        lemma_hex_value_nonneg(s.drop_last());
    }
}

/// Extending a hexadecimal numeral on the right can only grow its value.
proof fn lemma_hex_value_mono(s: Seq<char>, m: int)
    requires
        0 <= m <= s.len(),
    ensures
        hex_value(s) >= hex_value(s.take(m)),
    decreases s.len(),
{
    if m < s.len() {
        lemma_hex_value_mono(s.drop_last(), m);
        assert(s.drop_last().take(m) =~= s.take(m));
        lemma_hex_value_nonneg(s.drop_last());
    } else {
        assert(s.take(m) =~= s);
    }
}

/// The value of a hexadecimal digit, or `None` for any other character.
fn hex_digit_of(c: char) -> (r: Option<u8>)
    ensures
        r is Some <==> is_hex_digit(c),
        r matches Some(d) ==> d == hex_digit_value(c),
{
    let v = c as u32;
    if v >= 48 && v <= 57 {
        Some((v - 48) as u8)
    } else if v >= 97 && v <= 102 {
        Some((v - 97 + 10) as u8)
    } else if v >= 65 && v <= 70 {
        Some((v - 65 + 10) as u8)
    } else {
        None
    }
}

/// Reads a hexadecimal address literal, tolerating a `0x`/`0X` prefix.
/// Returns `None` for an empty digit string, a non-digit character, or a
/// value that does not fit the machine word.
pub fn parse_address(addr: &str) -> (r: Option<usize>)
    ensures
        r == spec_parse_address(addr@),
{
    let n = addr.unicode_len();
    let mut pos: usize = 0;
    if n >= 2 && addr.get_char(0) == '0' {
        let c1 = addr.get_char(1);
        if c1 == 'x' || c1 == 'X' {
            pos = 2;
        }
    }
    assert(strip_radix_prefix(addr@) =~= addr@.skip(pos as int));
    let ghost t = strip_radix_prefix(addr@);
    if pos < n && addr.get_char(pos) == '+' {
        pos += 1;
    }
    let start: usize = pos;
    let ghost digits = addr@.skip(start as int);
    assert(digits =~= if t.len() >= 1 && t[0] == '+' {
        t.skip(1)
    } else {
        t
    });
    assert(spec_parse_address(addr@) == spec_parse_digits(digits));
    if start >= n {
        return None;
    }
    let mut acc: usize = 0;
    let mut i: usize = start;
    while i < n
        invariant
            start <= i <= n,
            n == addr@.len(),
            start < n,
            digits == addr@.skip(start as int),
            spec_parse_address(addr@) == spec_parse_digits(digits),
            all_hex(digits.take(i - start)),
            acc == hex_value(digits.take(i - start)),
        decreases n - i,
    {
        let c = addr.get_char(i);
        let ghost m = i - start;
        proof {
            assert(digits[m as int] == addr@[i as int]);
            assert(digits.take(m + 1).drop_last() =~= digits.take(m as int));
            assert(digits.take(m + 1).last() == digits[m as int]);
        }
        let d = match hex_digit_of(c) {
            Some(d) => d,
            None => {
                assert(!is_hex_digit(digits[m as int]));
                return None;
            },
        };
        let widened = match acc.checked_mul(16) {
            Some(w) => w.checked_add(d as usize),
            None => None,
        };
        match widened {
            Some(w) => {
                acc = w;
            },
            None => {
                proof {
                    assert(hex_value(digits.take(m + 1)) > usize::MAX);
                    if all_hex(digits) {
                        lemma_hex_value_mono(digits, m + 1);
                    }
                }
                return None;
            },
        }
        i += 1;
    }
    assert(digits.take(n - start) =~= digits);
    Some(acc)
}

} // verus!
