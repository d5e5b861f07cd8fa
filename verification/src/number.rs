//! Numbers as text.

use crate::text::chars_of;
use vstd::prelude::*;

verus! {

/// The digit `d`, in decimal or hexadecimal.
pub open spec fn digit(d: int) -> char {
    if d == 0 {
        '0'
    } else if d == 1 {
        '1'
    } else if d == 2 {
        '2'
    } else if d == 3 {
        '3'
    } else if d == 4 {
        '4'
    } else if d == 5 {
        '5'
    } else if d == 6 {
        '6'
    } else if d == 7 {
        '7'
    } else if d == 8 {
        '8'
    } else if d == 9 {
        '9'
    } else if d == 10 {
        'a'
    } else if d == 11 {
        'b'
    } else if d == 12 {
        'c'
    } else if d == 13 {
        'd'
    } else if d == 14 {
        'e'
    } else {
        'f'
    }
}

fn digit_char(d: u8) -> (r: char)
    requires
        d < 16,
    ensures
        r == digit(d as int),
{
    match d {
        0 => '0',
        1 => '1',
        2 => '2',
        3 => '3',
        4 => '4',
        5 => '5',
        6 => '6',
        7 => '7',
        8 => '8',
        9 => '9',
        10 => 'a',
        11 => 'b',
        12 => 'c',
        13 => 'd',
        14 => 'e',
        _ => 'f',
    }
}

/// `n` in decimal, without leading zeros.
pub open spec fn decimal(n: nat) -> Seq<char>
    decreases n,
{
    if n < 10 {
        seq![digit(n as int)]
    } else {
        decimal(n / 10).push(digit((n % 10) as int))
    }
}

fn push_decimal(s: &mut String, n: u64)
    ensures
        final(s)@ == old(s)@ + decimal(n as nat),
    decreases n,
{
    if n >= 10 {
        push_decimal(s, n / 10);
    }
    s.push(digit_char((n % 10) as u8));
    assert(s@ =~= old(s)@ + decimal(n as nat));
}

pub fn decimal_string(n: u64) -> (r: String)
    ensures
        r@ == decimal(n as nat),
{
    let mut s = String::new();
    push_decimal(&mut s, n);
    assert(Seq::<char>::empty() + decimal(n as nat) =~= decimal(n as nat));
    s
}

/// `n` in decimal, with a minus sign if it is negative.
pub open spec fn signed_decimal(n: int) -> Seq<char> {
    if n < 0 {
        "-"@ + decimal((-n) as nat)
    } else {
        decimal(n as nat)
    }
}

pub fn signed_decimal_string(n: i32) -> (r: String)
    ensures
        r@ == signed_decimal(n as int),
{
    if n < 0 {
        "-".to_owned().concat(decimal_string((-(n as i64)) as u64).as_str())
    } else {
        decimal_string(n as u64)
    }
}

/// `s` with zeros put in front until it has `width` characters.
pub open spec fn zero_padded(s: Seq<char>, width: nat) -> Seq<char>
    decreases width - s.len(),
{
    if s.len() >= width {
        s
    } else {
        zero_padded(seq!['0'] + s, width)
    }
}

/// `n` in decimal with at least `width` digits.
pub open spec fn decimal_padded(n: nat, width: nat) -> Seq<char> {
    zero_padded(decimal(n), width)
}

proof fn lemma_zero_padded(s: Seq<char>, width: nat, zeros: Seq<char>)
    requires
        s.len() + zeros.len() == width || zeros.len() == 0 && s.len() >= width,
        forall|j: int| 0 <= j < zeros.len() ==> zeros[j] == '0',
    ensures
        zero_padded(s, width) == zeros + s,
    decreases zeros.len(),
{
    if zeros.len() == 0 {
        assert(zeros + s =~= s);
    } else {
        lemma_zero_padded(seq!['0'] + s, width, zeros.drop_last());
        assert(zeros.drop_last() + (seq!['0'] + s) =~= zeros + s);
    }
}

/// A number in decimal has at least one character, and each is a digit.
pub proof fn lemma_decimal(n: nat)
    ensures
        decimal(n).len() > 0,
        forall|i: int| 0 <= i < decimal(n).len() ==> '0' <= #[trigger] decimal(n)[i] <= '9',
    decreases n,
{
    if n >= 10 {
        lemma_decimal(n / 10);
    }
}

proof fn lemma_zero_padded_digits(s: Seq<char>, width: nat)
    requires
        s.len() > 0,
        forall|i: int| 0 <= i < s.len() ==> '0' <= #[trigger] s[i] <= '9',
    ensures
        zero_padded(s, width).len() >= width,
        zero_padded(s, width).len() > 0,
        forall|i: int|
            0 <= i < zero_padded(s, width).len() ==> '0' <= #[trigger] zero_padded(s, width)[i]
                <= '9',
    decreases width - s.len(),
{
    if s.len() < width {
        lemma_zero_padded_digits(seq!['0'] + s, width);
    }
}

/// A padded number is made of digits, and at least as long as it has to be.
pub proof fn lemma_decimal_padded(n: nat, width: nat)
    ensures
        decimal_padded(n, width).len() >= width,
        decimal_padded(n, width).len() > 0,
        forall|i: int|
            0 <= i < decimal_padded(n, width).len() ==> '0' <= #[trigger] decimal_padded(n, width)[i]
                <= '9',
{
    lemma_decimal(n);
    lemma_zero_padded_digits(decimal(n), width);
}

pub fn decimal_padded_string(n: u64, width: usize) -> (r: String)
    ensures
        r@ == decimal_padded(n as nat, width as nat),
{
    let body = decimal_string(n);
    let len: usize = chars_of(body.as_str()).len();
    let mut r = String::new();
    let mut i: usize = len;
    while i < width
        invariant
            len <= i,
            i <= width || i == len,
            r@.len() == i - len,
            forall|j: int| 0 <= j < r@.len() ==> r@[j] == '0',
        decreases width - i,
    {
        r.push('0');
        i = i + 1;
    }
    proof {
        lemma_zero_padded(body@, width as nat, r@);
    }
    r.append(body.as_str());
    r
}

/// The byte `b` as two lower-case hexadecimal digits.
pub open spec fn hex_byte(b: u8) -> Seq<char> {
    seq![digit(b as int / 16), digit(b as int % 16)]
}

pub fn hex_byte_string(b: u8) -> (r: String)
    ensures
        r@ == hex_byte(b),
{
    let mut r = String::new();
    r.push(digit_char(b / 16));
    r.push(digit_char(b % 16));
    assert(r@ =~= hex_byte(b));
    r
}

/// The value of a decimal digit.
pub open spec fn digit_value(c: char) -> Option<nat> {
    if '0' <= c <= '9' {
        Some((c as nat - '0' as nat) as nat)
    } else {
        None
    }
}

/// The number that a sequence of decimal digits writes; `None` if one of the
/// characters is not a digit. No digits write zero.
pub open spec fn digits_value(s: Seq<char>) -> Option<nat>
    decreases s.len(),
{
    if s.len() == 0 {
        Some(0)
    } else {
        match (digits_value(s.drop_last()), digit_value(s.last())) {
            (Some(n), Some(d)) => Some(n * 10 + d),
            _ => None,
        }
    }
}

/// The integer that `s` writes in decimal: an optional sign and at least one
/// digit.
pub open spec fn integer_value(s: Seq<char>) -> Option<int> {
    let signed = s.len() > 0 && (s[0] == '+' || s[0] == '-');
    let digits = if signed {
        s.subrange(1, s.len() as int)
    } else {
        s
    };
    if digits.len() == 0 {
        None
    } else {
        match digits_value(digits) {
            Some(n) => Some(
                if signed && s[0] == '-' {
                    -(n as int)
                } else {
                    n as int
                },
            ),
            None => None,
        }
    }
}

/// The 32-bit integer that `s` writes, if it writes one.
pub open spec fn i32_value(s: Seq<char>) -> Option<int> {
    match integer_value(s) {
        Some(n) if i32::MIN <= n <= i32::MAX => Some(n),
        _ => None,
    }
}

proof fn lemma_digits_value_grows(s: Seq<char>, n: int)
    requires
        0 <= n <= s.len(),
    ensures
        digits_value(s.subrange(0, n)) is None ==> digits_value(s) is None,
        digits_value(s) is Some ==> digits_value(s.subrange(0, n)) is Some
            && digits_value(s.subrange(0, n))->0 <= digits_value(s)->0,
    decreases s.len() - n,
{
    if n == s.len() {
        assert(s.subrange(0, n) =~= s);
    } else {
        lemma_digits_value_grows(s, n + 1);
        assert(s.subrange(0, n + 1).drop_last() =~= s.subrange(0, n));
    }
}

/// The 32-bit integer that `s` writes, if it writes one.
pub fn parse_i32(s: &str) -> (r: Option<i32>)
    ensures
        match r {
            Some(n) => i32_value(s@) == Some(n as int),
            None => i32_value(s@) is None,
        },
{
    let v = chars_of(s);
    let signed: bool = v.len() > 0 && (v[0] == '+' || v[0] == '-');
    let from: usize = if signed {
        1
    } else {
        0
    };
    if from == v.len() {
        return None;
    }
    let ghost digits = v@.subrange(from as int, v@.len() as int);
    proof {
        assert(v@.subrange(0, v@.len() as int) =~= v@);
    }
    let mut n: i64 = 0;
    let mut i: usize = from;
    assert(digits.subrange(0, 0) =~= Seq::<char>::empty());
    while i < v.len()
        invariant
            from <= i <= v.len(),
            digits == v@.subrange(from as int, v@.len() as int),
            0 <= n <= 2_147_483_648,
            digits_value(digits.subrange(0, i - from)) == Some(n as nat),
            from < v.len(),
            s@ == v@,
            signed == (v.len() > 0 && (v@[0] == '+' || v@[0] == '-')),
            from == (if signed { 1int } else { 0int }),
            integer_value(s@) == match digits_value(digits) {
                Some(n) => Some(
                    if signed && v@[0] == '-' {
                        -(n as int)
                    } else {
                        n as int
                    },
                ),
                None => None,
            },
        decreases v.len() - i,
    {
        let c = v[i];
        proof {
            let next = digits.subrange(0, i - from + 1);
            assert(next.drop_last() =~= digits.subrange(0, i - from));
            assert(next.last() == c);
            lemma_digits_value_grows(digits, i - from + 1);
        }
        if !('0' <= c && c <= '9') {
            return None;
        }
        n = n * 10 + (c as u32 - '0' as u32) as i64;
        if n > 2_147_483_648 {
            return None;
        }
        i = i + 1;
    }
    assert(digits.subrange(0, digits.len() as int) =~= digits);
    if signed && v[0] == '-' {
        Some((-n) as i32)
    } else if n <= 2_147_483_647 {
        Some(n as i32)
    } else {
        None
    }
}

} // verus!
