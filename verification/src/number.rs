//! Decimal and hexadecimal numbers written as text.

use vstd::prelude::*;
use crate::text::slice_chars;

verus! {

/// `c` is one of `0` to `9`.
pub open spec fn is_digit(c: char) -> bool {
    '0' <= c && c <= '9'
}

/// `c` is a decimal digit or one of `a` to `f`, in either case.
pub open spec fn is_hex_digit(c: char) -> bool {
    is_digit(c) || ('a' <= c && c <= 'f') || ('A' <= c && c <= 'F')
}

/// The number that the decimal digit `c` stands for.
pub open spec fn digit_value(c: char) -> nat {
    (c as nat - '0' as nat) as nat
}

/// The number that the hexadecimal digit `c` stands for.
pub open spec fn hex_digit_value(c: char) -> nat {
    if is_digit(c) {
        digit_value(c)
    } else if 'a' <= c && c <= 'f' {
        (c as nat - 'a' as nat + 10) as nat
    } else {
        (c as nat - 'A' as nat + 10) as nat
    }
}

/// Every character of `s` is a decimal digit.
pub open spec fn all_digits(s: Seq<char>) -> bool {
    forall|i: int| 0 <= i < s.len() ==> is_digit(#[trigger] s[i])
}

/// Every character of `s` is a hexadecimal digit.
pub open spec fn all_hex_digits(s: Seq<char>) -> bool {
    forall|i: int| 0 <= i < s.len() ==> is_hex_digit(#[trigger] s[i])
}

/// The number that `s` denotes in base ten, most significant digit first.
pub open spec fn decimal_value(s: Seq<char>) -> nat
    decreases s.len(),
{
    if s.len() == 0 {
        0
    } else {
        decimal_value(s.drop_last()) * 10 + digit_value(s.last())
    }
}

/// The number that `s` denotes in base sixteen, most significant digit first.
pub open spec fn hex_value(s: Seq<char>) -> nat
    decreases s.len(),
{
    if s.len() == 0 {
        0
    } else {
        hex_value(s.drop_last()) * 16 + hex_digit_value(s.last())
    }
}

/// The value of `s` where it is one or more decimal digits that denote at most `max`.
/// Leading zeros are accepted.
pub open spec fn decimal_upto(s: Seq<char>, max: nat) -> Option<nat> {
    if s.len() > 0 && all_digits(s) && decimal_value(s) <= max {
        Some(decimal_value(s))
    } else {
        None
    }
}

/// The value of `s` where it is an octet of a dotted address: one to three
/// decimal digits, no leading zero before another digit, at most 255.
pub open spec fn octet(s: Seq<char>) -> Option<nat> {
    if 1 <= s.len() <= 3 && all_digits(s) && (s.len() == 1 || s[0] != '0') && decimal_value(s)
        <= 255 {
        Some(decimal_value(s))
    } else {
        None
    }
}

/// The value of `s` where it is one to four hexadecimal digits.
pub open spec fn hex_group(s: Seq<char>) -> Option<nat> {
    if 1 <= s.len() <= 4 && all_hex_digits(s) {
        Some(hex_value(s))
    } else {
        None
    }
}

/// The value of `s` where it is a port number in free-standing form: an optional
/// `+`, then one or more decimal digits that denote at most 65535.
pub open spec fn port_number(s: Seq<char>) -> Option<nat> {
    if s.len() > 0 && s[0] == '+' {
        decimal_upto(s.subrange(1, s.len() as int), 65535)
    } else {
        decimal_upto(s, 65535)
    }
}

/// A prefix of a decimal numeral denotes no more than the whole.
pub proof fn lemma_decimal_prefix(s: Seq<char>, i: int)
    requires
        0 <= i <= s.len(),
    ensures
        decimal_value(s.subrange(0, i)) <= decimal_value(s),
    decreases s.len() - i,
{
    if i == s.len() {
        assert(s.subrange(0, i) =~= s);
    } else {
        lemma_decimal_prefix(s.drop_last(), i);
        assert(s.drop_last().subrange(0, i) =~= s.subrange(0, i));
    }
}

/// One to four hexadecimal digits denote a number below 65536.
pub proof fn lemma_hex_group_bound(s: Seq<char>)
    requires
        s.len() <= 4,
        all_hex_digits(s),
    ensures
        s.len() == 0 ==> hex_value(s) == 0,
        s.len() == 1 ==> hex_value(s) < 16,
        s.len() == 2 ==> hex_value(s) < 256,
        s.len() == 3 ==> hex_value(s) < 4096,
        hex_value(s) < 65536,
    decreases s.len(),
{
    if s.len() > 0 {
        lemma_hex_group_bound(s.drop_last());
        assert(is_hex_digit(s[s.len() - 1]));
    }
}

/// Reads one or more decimal digits that denote at most `max`.
pub fn parse_decimal(v: &Vec<char>, max: u32) -> (r: Option<u32>)
    ensures
        match decimal_upto(v@, max as nat) {
            Some(n) => r == Some(n as u32),
            None => r is None,
        },
{
    if v.len() == 0 {
        return None;
    }
    let mut acc: u64 = 0;
    let mut i: usize = 0;
    while i < v.len()
        invariant
            i <= v@.len(),
            all_digits(v@.subrange(0, i as int)),
            acc == decimal_value(v@.subrange(0, i as int)),
            acc <= max,
        decreases v@.len() - i,
    {
        let c = v[i];
        proof {
            assert(v@.subrange(0, i + 1).drop_last() =~= v@.subrange(0, i as int));
        }
        if !(c >= '0' && c <= '9') {
            assert(!is_digit(v@[i as int]));
            return None;
        }
        let d: u64 = (c as u32 - '0' as u32) as u64;
        acc = acc * 10 + d;
        proof {
            assert(acc == decimal_value(v@.subrange(0, i + 1)));
            assert forall|j: int| 0 <= j < i + 1 implies is_digit(
                #[trigger] v@.subrange(0, i + 1)[j],
            ) by {
                if j < i {
                    assert(v@.subrange(0, i as int)[j] == v@[j]);
                }
            }
        }
        if acc > max as u64 {
            proof {
                lemma_decimal_prefix(v@, i + 1);
            }
            return None;
        }
        i += 1;
    }
    assert(v@.subrange(0, i as int) =~= v@);
    Some(acc as u32)
}

/// Reads an octet of a dotted address.
pub fn parse_octet(v: &Vec<char>) -> (r: Option<u8>)
    ensures
        match octet(v@) {
            Some(n) => r == Some(n as u8),
            None => r is None,
        },
{
    if v.len() < 1 || v.len() > 3 {
        return None;
    }
    if v.len() > 1 && v[0] == '0' {
        return None;
    }
    match parse_decimal(v, 255) {
        Some(n) => Some(n as u8),
        None => None,
    }
}

/// Reads one to four hexadecimal digits.
pub fn parse_hex_group(v: &Vec<char>) -> (r: Option<u16>)
    ensures
        match hex_group(v@) {
            Some(n) => r == Some(n as u16),
            None => r is None,
        },
        hex_group(v@) matches Some(n) ==> n < 65536,
{
    if v.len() < 1 || v.len() > 4 {
        return None;
    }
    let mut acc: u32 = 0;
    let mut i: usize = 0;
    while i < v.len()
        invariant
            i <= v@.len() <= 4,
            all_hex_digits(v@.subrange(0, i as int)),
            acc == hex_value(v@.subrange(0, i as int)),
            acc < 65536,
            i < 4 ==> acc < 4096,
        decreases v@.len() - i,
    {
        let c = v[i];
        proof {
            assert(v@.subrange(0, i + 1).drop_last() =~= v@.subrange(0, i as int));
            lemma_hex_group_bound(v@.subrange(0, i as int));
        }
        let d: u32 = if c >= '0' && c <= '9' {
            c as u32 - '0' as u32
        } else if c >= 'a' && c <= 'f' {
            c as u32 - 'a' as u32 + 10
        } else if c >= 'A' && c <= 'F' {
            c as u32 - 'A' as u32 + 10
        } else {
            assert(!is_hex_digit(v@[i as int]));
            return None;
        };
        acc = acc * 16 + d;
        proof {
            assert(d == hex_digit_value(c));
            assert forall|j: int| 0 <= j < i + 1 implies is_hex_digit(
                #[trigger] v@.subrange(0, i + 1)[j],
            ) by {
                if j < i {
                    assert(v@.subrange(0, i as int)[j] == v@[j]);
                }
            }
            lemma_hex_group_bound(v@.subrange(0, i + 1));
        }
        i += 1;
    }
    proof {
        assert(v@.subrange(0, i as int) =~= v@);
        lemma_hex_group_bound(v@);
    }
    Some(acc as u16)
}

/// Reads a port number in free-standing form.
pub fn parse_port(v: &Vec<char>) -> (r: Option<u16>)
    ensures
        match port_number(v@) {
            Some(n) => r == Some(n as u16),
            None => r is None,
        },
{
    let digits = if v.len() > 0 && v[0] == '+' {
        slice_chars(v, 1, v.len())
    } else {
        slice_chars(v, 0, v.len())
    };
    proof {
        assert(v@.subrange(0, v@.len() as int) =~= v@);
    }
    match parse_decimal(&digits, 65535) {
        Some(n) => Some(n as u16),
        None => None,
    }
}

} // verus!
