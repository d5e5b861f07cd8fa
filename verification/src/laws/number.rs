//! Numbers as text say which number they are.

use crate::number;
use vstd::prelude::*;

verus! {

/// A number in decimal is read back as that number.
pub proof fn lemma_decimal_read_back(n: nat)
    ensures
        number::digits_value(number::decimal(n)) == Some(n),
        number::decimal(n).len() > 0,
        n > 0 ==> number::decimal(n)[0] != '0',
    decreases n,
{
    let s = number::decimal(n);
    reveal_with_fuel(number::digits_value, 2);
    if n < 10 {
        assert(s.drop_last() =~= Seq::<char>::empty());
        assert(number::digits_value(s.drop_last()) == Some(0nat));
        assert(s.last() == number::digit(n as int));
    } else {
        lemma_decimal_read_back(n / 10);
        assert(s.drop_last() =~= number::decimal(n / 10));
        assert(s.last() == number::digit((n % 10) as int));
        assert(s[0] == number::decimal(n / 10)[0]);
    }
}

/// Different numbers are written differently.
pub proof fn lemma_decimal_distinct(a: nat, b: nat)
    requires
        a != b,
    ensures
        number::decimal(a) != number::decimal(b),
{
    lemma_decimal_read_back(a);
    lemma_decimal_read_back(b);
}

/// A number with a sign is read back as that number.
pub proof fn lemma_signed_read_back(n: int)
    ensures
        number::integer_value(number::signed_decimal(n)) == Some(n),
{
    reveal_strlit("-");
    if n < 0 {
        lemma_decimal_read_back((-n) as nat);
        let s = number::signed_decimal(n);
        assert(s[0] == '-');
        assert(s.subrange(1, s.len() as int) =~= number::decimal((-n) as nat));
    } else {
        lemma_decimal_read_back(n as nat);
        number::lemma_decimal(n as nat);
        let s = number::signed_decimal(n);
        assert('0' <= s[0] <= '9');
    }
}

/// Zeros in front change nothing of the number.
proof fn lemma_zero_padded_read_back(s: Seq<char>, width: nat)
    ensures
        number::digits_value(number::zero_padded(s, width)) == number::digits_value(s),
    decreases width - s.len(),
{
    if s.len() < width {
        lemma_zero_padded_read_back(seq!['0'] + s, width);
        lemma_leading_zero(s);
    }
}

proof fn lemma_leading_zero(s: Seq<char>)
    ensures
        number::digits_value(seq!['0'] + s) == number::digits_value(s),
    decreases s.len(),
{
    let t = seq!['0'] + s;
    if s.len() == 0 {
        assert(t.drop_last() =~= Seq::<char>::empty());
        reveal_with_fuel(number::digits_value, 2);
    } else {
        assert(t.drop_last() =~= seq!['0'] + s.drop_last());
        assert(t.last() == s.last());
        lemma_leading_zero(s.drop_last());
    }
}

/// A padded number is read back as that number, and has exactly the width where
/// the number is short enough.
pub proof fn lemma_padded_read_back(n: nat, width: nat)
    ensures
        number::digits_value(number::decimal_padded(n, width)) == Some(n),
        number::decimal_padded(n, width).len() == (if number::decimal(n).len() < width {
            width
        } else {
            number::decimal(n).len()
        }),
{
    lemma_zero_padded_read_back(number::decimal(n), width);
    lemma_decimal_read_back(n);
    lemma_padded_len(number::decimal(n), width);
}

proof fn lemma_padded_len(s: Seq<char>, width: nat)
    ensures
        number::zero_padded(s, width).len() == (if s.len() < width {
            width
        } else {
            s.len()
        }),
    decreases width - s.len(),
{
    if s.len() < width {
        lemma_padded_len(seq!['0'] + s, width);
    }
}

/// Different bytes are written differently, each with two digits.
pub proof fn lemma_hex_distinct(a: u8, b: u8)
    ensures
        number::hex_byte(a).len() == 2,
        a != b ==> number::hex_byte(a) != number::hex_byte(b),
        a < 10 ==> number::hex_byte(a) == seq!['0', number::digit(a as int)],
{
    let x = number::hex_byte(a);
    let y = number::hex_byte(b);
    if a != b {
        assert(a as int / 16 != b as int / 16 || a as int % 16 != b as int % 16);
        assert(x[0] != y[0] || x[1] != y[1]);
    }
    if a < 10 {
        assert(x =~= seq!['0', number::digit(a as int)]);
    }
}

} // verus!
