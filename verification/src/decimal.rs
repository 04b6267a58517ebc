//! Decimal text: rendering an unsigned number and reading a number back from
//! the bytes of a text field.

use vstd::prelude::*;
use vstd::string::{StringExecFns, StringSliceAdditionalSpecFns};
use vstd::utf8::{encode_utf8, is_ascii_chars, is_ascii_chars_encode_utf8};

verus! {

/// The character that stands for the digit `d`.
pub open spec fn digit_char(d: int) -> char {
    if d == 0 {
        '0'
    } else if d == 1 {
        '1'
    } else if d == 2 {
        '2'
    } else if d == 3 {
        '3'
    } else if d == 4 {
        '4'
    } else if d == 5 {
        '5'
    } else if d == 6 {
        '6'
    } else if d == 7 {
        '7'
    } else if d == 8 {
        '8'
    } else {
        '9'
    }
}

/// The decimal rendering of `n`, most significant digit first, without
/// leading zeros.
pub open spec fn decimal(n: nat) -> Seq<char>
    decreases n,
{
    if n < 10 {
        seq![digit_char(n as int)]
    } else {
        decimal(n / 10).push(digit_char((n % 10) as int))
    }
}

/// The number of decimal digits of `n`.
pub open spec fn digit_count(n: nat) -> nat
    decreases n,
{
    if n < 10 {
        1
    } else {
        digit_count(n / 10) + 1
    }
}

/// A decimal rendering has as many characters as the number has digits.
pub proof fn lemma_decimal_len(n: nat)
    ensures
        decimal(n).len() == digit_count(n),
    decreases n,
{
    if n >= 10 {
        lemma_decimal_len(n / 10);
    }
}

/// A decimal rendering holds digits only, so it takes one byte for each.
pub proof fn lemma_decimal_ascii(n: nat)
    ensures
        forall|i: int| 0 <= i < decimal(n).len() ==> '0' <= #[trigger] decimal(n)[i] <= '9',
        is_ascii_chars(decimal(n)),
        encode_utf8(decimal(n)).len() == digit_count(n),
    decreases n,
{
    if n >= 10 {
        lemma_decimal_ascii(n / 10);
        let head = decimal(n / 10);
        let last = digit_char((n % 10) as int);
        assert forall|i: int| 0 <= i < decimal(n).len() implies '0' <= #[trigger] decimal(
            n,
        )[i] <= '9' by {
            if i < head.len() {
                assert(decimal(n)[i] == head[i]);
            } else {
                assert(decimal(n)[i] == last);
            }
        }
    }
    lemma_decimal_len(n);
    is_ascii_chars_encode_utf8(decimal(n));
}

/// The number that a sequence of digit characters stands for.
pub open spec fn decimal_value(s: Seq<char>) -> nat
    decreases s.len(),
{
    if s.len() == 0 {
        0
    } else {
        decimal_value(s.drop_last()) * 10 + (s.last() as int - '0' as int) as nat
    }
}

/// Reading a rendering back gives the number.
pub proof fn lemma_decimal_value(n: nat)
    ensures
        decimal_value(decimal(n)) == n,
    decreases n,
{
    if n < 10 {
        assert(decimal(n).drop_last() =~= Seq::<char>::empty());
        assert(decimal_value(decimal(n).drop_last()) == 0);
    } else {
        lemma_decimal_value(n / 10);
        assert(decimal(n).drop_last() =~= decimal(n / 10));
    }
}

/// Two numbers with the same decimal rendering are the same number.
pub proof fn lemma_decimal_injective(a: nat, b: nat)
    requires
        decimal(a) == decimal(b),
    ensures
        a == b,
{
    lemma_decimal_value(a);
    lemma_decimal_value(b);
}

fn digit_text(d: u32) -> (s: &'static str)
    requires
        d < 10,
    ensures
        s@ == seq![digit_char(d as int)],
{
    proof {
        reveal_strlit("0");
        reveal_strlit("1");
        reveal_strlit("2");
        reveal_strlit("3");
        reveal_strlit("4");
        reveal_strlit("5");
        reveal_strlit("6");
        reveal_strlit("7");
        reveal_strlit("8");
        reveal_strlit("9");
    }
    let s = if d == 0 {
        "0"
    } else if d == 1 {
        "1"
    } else if d == 2 {
        "2"
    } else if d == 3 {
        "3"
    } else if d == 4 {
        "4"
    } else if d == 5 {
        "5"
    } else if d == 6 {
        "6"
    } else if d == 7 {
        "7"
    } else if d == 8 {
        "8"
    } else {
        "9"
    };
    assert(s@ =~= seq![digit_char(d as int)]);
    s
}

/// Appends the decimal rendering of `n` to `text`.
pub fn push_decimal(text: &mut String, n: u32)
    ensures
        final(text)@ == old(text)@ + decimal(n as nat),
    decreases n,
{
    if n >= 10 {
        push_decimal(text, n / 10);
    }
    text.append(digit_text(n % 10));
    assert(text@ =~= old(text)@ + decimal(n as nat));
}

/// The decimal rendering of `n` as a string.
pub fn decimal_string(n: u32) -> (text: String)
    ensures
        text@ == decimal(n as nat),
{
    let mut text = String::new();
    push_decimal(&mut text, n);
    assert(text@ =~= decimal(n as nat));
    text
}

/// Whether `s` is one or more decimal digits.
pub open spec fn is_digits(s: Seq<char>) -> bool {
    s.len() > 0 && forall|i: int| 0 <= i < s.len() ==> '0' <= #[trigger] s[i] <= '9'
}

/// The number that an unsigned decimal text stands for: an optional `+` and
/// then digits only. Anything else, the empty text and a lone sign included,
/// stands for no number.
pub open spec fn parsed_unsigned(s: Seq<char>) -> Option<nat> {
    let digits = if s.len() > 0 && s[0] == '+' {
        s.drop_first()
    } else {
        s
    };
    if is_digits(digits) {
        Some(decimal_value(digits))
    } else {
        None
    }
}

/// What reading `s` as a `u32` gives: the number it stands for, if it fits.
pub open spec fn parsed_u32(s: Seq<char>) -> Option<u32> {
    match parsed_unsigned(s) {
        Some(v) => if v <= u32::MAX {
            Some(v as u32)
        } else {
            None
        },
        None => None,
    }
}

/// What reading `s` as an `i32` gives: as for a `u32`, but a leading `-`
/// is accepted too and negates the digits that follow.
pub open spec fn parsed_i32(s: Seq<char>) -> Option<i32> {
    if s.len() > 0 && s[0] == '-' {
        if is_digits(s.drop_first()) && decimal_value(s.drop_first()) <= 0x8000_0000 {
            Some((-(decimal_value(s.drop_first()) as int)) as i32)
        } else {
            None
        }
    } else {
        match parsed_unsigned(s) {
            Some(v) => if v <= i32::MAX {
                Some(v as i32)
            } else {
                None
            },
            None => None,
        }
    }
}

/// Among digits, a text stands for at least as much as any of its prefixes.
proof fn lemma_value_prefix(s: Seq<char>, k: int)
    requires
        0 <= k <= s.len(),
        forall|i: int| 0 <= i < s.len() ==> '0' <= #[trigger] s[i] <= '9',
    ensures
        decimal_value(s.take(k)) <= decimal_value(s),
    decreases s.len() - k,
{
    if k == s.len() {
        assert(s.take(k) =~= s);
    } else {
        lemma_value_prefix(s.drop_last(), k);
        assert(s.drop_last().take(k) =~= s.take(k));
    }
}

/// The value of the digits of `text` from `start` on, if there is at least
/// one character there, all of them are digits, and the value is at most
/// 2^32.
fn digits_from(text: &str, start: usize) -> (r: Option<u64>)
    requires
        text.is_ascii(),
        start <= text@.len(),
    ensures
        r matches Some(v) ==> is_digits(text@.skip(start as int)) && v == decimal_value(
            text@.skip(start as int),
        ) && v <= 0x1_0000_0000,
        r is None ==> !is_digits(text@.skip(start as int)) || decimal_value(
            text@.skip(start as int),
        ) > 0x1_0000_0000,
{
    broadcast use vstd::string::is_ascii_spec_bytes;

    let bytes = text.as_bytes();
    let n = bytes.len();
    let ghost rest = text@.skip(start as int);
    proof {
        is_ascii_chars_encode_utf8(text@);
    }
    if start >= n {
        return None;
    }
    let mut value: u64 = 0;
    let mut i: usize = start;
    while i < n
        invariant
            start <= i <= n,
            n == text@.len(),
            bytes@ == text.spec_bytes(),
            text.is_ascii(),
            rest == text@.skip(start as int),
            value == decimal_value(rest.take(i - start)),
            value <= 0x1_0000_0000,
            forall|j: int| 0 <= j < i - start ==> '0' <= #[trigger] rest[j] <= '9',
        decreases n - i,
    {
        let b = bytes[i];
        let ghost c = text@[i as int];
        assert(c == rest[i - start]);
        assert(b == c as u8);
        assert('\0' <= c <= '\u{7f}');
        if b < 48 || b > 57 {
            assert(!('0' <= c <= '9'));
            return None;
        }
        assert('0' <= c <= '9');
        let ghost before = rest.take(i - start);
        let ghost after = rest.take(i - start + 1);
        assert(after.drop_last() =~= before);
        assert(after.last() == c);
        let next: u64 = value * 10 + (b - 48) as u64;
        assert(next == decimal_value(after));
        if next > 0x1_0000_0000 {
            proof {
                if is_digits(rest) {
                    lemma_value_prefix(rest, i - start + 1);
                }
            }
            return None;
        }
        value = next;
        i = i + 1;
    }
    assert(rest.take(i - start) =~= rest);
    Some(value)
}

/// Reads `text` as a `u32`, as `str::parse` does: an optional `+`, then
/// digits only, and a value that fits.
pub fn parse_u32(text: &str) -> (r: Option<u32>)
    ensures
        r == parsed_u32(text@),
{
    broadcast use vstd::string::is_ascii_spec_bytes;

    if !text.is_ascii() {
        assert(!is_digits(text@));
        assert(text@.len() > 0 && text@[0] == '+' ==> !is_digits(text@.drop_first())) by {
            if text@.len() > 0 && text@[0] == '+' {
                let k = choose|k: int| 0 <= k < text@.len() && !('\0' <= #[trigger] text@[k] <= '\u{7f}');
                assert(k > 0);
                assert(text@.drop_first()[k - 1] == text@[k]);
            }
        }
        return None;
    }
    proof {
        is_ascii_chars_encode_utf8(text@);
    }
    let bytes = text.as_bytes();
    let start: usize = if bytes.len() > 0 && bytes[0] == 43 {
        1
    } else {
        0
    };
    assert(bytes.len() > 0 ==> bytes[0] == text@[0] as u8);
    assert(text@.skip(0) =~= text@);
    assert(text@.len() > 0 ==> text@.skip(1) =~= text@.drop_first());
    match digits_from(text, start) {
        Some(v) => if v <= 0xffff_ffff {
            Some(v as u32)
        } else {
            None
        },
        None => None,
    }
}

/// Reads `text` as an `i32`, as `str::parse` does: an optional `+` or `-`,
/// then digits only, and a value that fits.
pub fn parse_i32(text: &str) -> (r: Option<i32>)
    ensures
        r == parsed_i32(text@),
{
    broadcast use vstd::string::is_ascii_spec_bytes;

    if !text.is_ascii() {
        assert(!is_digits(text@));
        assert(text@.len() > 0 ==> !is_digits(text@.drop_first()) || !('\0' <= text@[0] <= '\u{7f}')) by {
            if text@.len() > 0 && ('\0' <= text@[0] <= '\u{7f}') {
                let k = choose|k: int| 0 <= k < text@.len() && !('\0' <= #[trigger] text@[k] <= '\u{7f}');
                assert(k > 0);
                assert(text@.drop_first()[k - 1] == text@[k]);
            }
        }
        return None;
    }
    proof {
        is_ascii_chars_encode_utf8(text@);
    }
    let bytes = text.as_bytes();
    assert(bytes.len() > 0 ==> bytes[0] == text@[0] as u8);
    assert(text@.skip(0) =~= text@);
    assert(text@.len() > 0 ==> text@.skip(1) =~= text@.drop_first());
    if bytes.len() > 0 && bytes[0] == 45 {
        match digits_from(text, 1) {
            Some(v) => if v <= 0x8000_0000 {
                Some((0i64 - v as i64) as i32)
            } else {
                None
            },
            None => None,
        }
    } else {
        let start: usize = if bytes.len() > 0 && bytes[0] == 43 {
            1
        } else {
            0
        };
        match digits_from(text, start) {
            Some(v) => if v <= 0x7fff_ffff {
                Some(v as i32)
            } else {
                None
            },
            None => None,
        }
    }
}

} // verus!
