//! Rendering of numbers and error texts.

use vstd::prelude::*;

verus! {

/// The character for a decimal or hexadecimal digit, upper case.
pub open spec fn digit_char(d: nat) -> char {
    if d < 10 {
        (('0' as nat) + d) as char
    } else {
        (('A' as nat) + d - 10) as char
    }
}

/// Decimal notation, without leading zeros.
pub open spec fn dec(n: nat) -> Seq<char>
    decreases n,
{
    if n < 10 {
        seq![digit_char(n)]
    } else {
        dec(n / 10).push(digit_char(n % 10))
    }
}

/// Decimal notation of a signed number: a minus sign before the magnitude of
/// a negative one.
pub open spec fn dec_int(n: int) -> Seq<char> {
    if n < 0 {
        "-"@ + dec((-n) as nat)
    } else {
        dec(n as nat)
    }
}

/// Two upper-case hexadecimal digits.
pub open spec fn hex2(b: u8) -> Seq<char> {
    seq![digit_char((b / 16) as nat), digit_char((b % 16) as nat)]
}

fn digit(d: u8) -> (r: &'static str)
    requires
        d < 16,
    ensures
        r@ == seq![digit_char(d as nat)],
{
    proof {
        reveal_strlit("0");
        reveal_strlit("1");
        reveal_strlit("2");
        reveal_strlit("3");
        reveal_strlit("4");
        reveal_strlit("5");
        reveal_strlit("6");
        reveal_strlit("7");
        reveal_strlit("8");
        reveal_strlit("9");
        reveal_strlit("A");
        reveal_strlit("B");
        reveal_strlit("C");
        reveal_strlit("D");
        reveal_strlit("E");
        reveal_strlit("F");
    }
    match d {
        0 => "0",
        1 => "1",
        2 => "2",
        3 => "3",
        4 => "4",
        5 => "5",
        6 => "6",
        7 => "7",
        8 => "8",
        9 => "9",
        10 => "A",
        11 => "B",
        12 => "C",
        13 => "D",
        14 => "E",
        _ => "F",
    }
}

/// Append the decimal notation of `n`.
pub fn push_dec(s: &mut String, n: u64)
    ensures
        final(s)@ == old(s)@ + dec(n as nat),
    decreases n,
{
    if n >= 10 {
        push_dec(s, n / 10);
    }
    let d: u64 = n % 10;
    s.append(digit(d as u8));
    proof {
        let shorter = if n >= 10 { dec((n / 10) as nat) } else { Seq::<char>::empty() };
        assert(old(s)@ + shorter + seq![digit_char(d as nat)] =~= old(s)@ + dec(n as nat));
    }
}

/// Append the decimal notation of `n`, with its sign if it is negative.
pub fn push_dec_int(s: &mut String, n: i64)
    ensures
        final(s)@ == old(s)@ + dec_int(n as int),
{
    if n < 0 {
        s.append("-");
        let magnitude: i128 = 0 - (n as i128);
        push_dec(s, magnitude as u64);
        assert(old(s)@ + "-"@ + dec((-n) as nat) =~= old(s)@ + dec_int(n as int));
    } else {
        push_dec(s, n as u64);
    }
}

/// Append `b` as two upper-case hexadecimal digits.
pub fn push_hex2(s: &mut String, b: u8)
    ensures
        final(s)@ == old(s)@ + hex2(b),
{
    s.append(digit(b / 16));
    s.append(digit(b % 16));
    assert(old(s)@ + seq![digit_char((b / 16) as nat)] + seq![digit_char((b % 16) as nat)]
        =~= old(s)@ + hex2(b));
}

/// The number that a row of decimal digits stands for.
pub open spec fn number_of(digits: Seq<char>) -> int
    decreases digits.len(),
{
    if digits.len() == 0 {
        0
    } else {
        10 * number_of(digits.drop_last()) + (digits.last() as int - '0' as int)
    }
}

/// The decimal notation of a number reads back as the number, is made of digits
/// alone and begins with a zero only for zero.
pub proof fn decimals_read_back(n: nat)
    ensures
        number_of(dec(n)) == n,
        dec(n).len() > 0,
        forall|i: int| 0 <= i < dec(n).len() ==> '0' as int <= #[trigger] dec(n)[i] as int <= '9' as int,
        dec(n)[0] == '0' ==> n == 0 && dec(n).len() == 1,
    decreases n,
{
    if n < 10 {
        assert(dec(n).drop_last() =~= Seq::<char>::empty());
        assert(number_of(dec(n).drop_last()) == 0);
    } else {
        decimals_read_back(n / 10);
        assert(dec(n).drop_last() =~= dec(n / 10));
        assert(dec(n)[0] == dec(n / 10)[0]);
    }
}

/// A negative number has a minus sign before its magnitude.
pub proof fn sign_comes_first(n: int)
    ensures
        n >= 0 ==> dec_int(n) == dec(n as nat) && number_of(dec_int(n)) == n,
        n < 0 ==> dec_int(n)[0] == '-' && number_of(dec_int(n).skip(1)) == -n,
{
    reveal_strlit("-");
    if n < 0 {
        decimals_read_back((-n) as nat);
        assert(dec_int(n).skip(1) =~= dec((-n) as nat));
    } else {
        decimals_read_back(n as nat);
    }
}

/// What a hexadecimal digit stands for.
pub open spec fn hex_value(c: char) -> int {
    if '0' as int <= c as int <= '9' as int {
        c as int - '0' as int
    } else {
        c as int - 'A' as int + 10
    }
}

/// Two hexadecimal digits read back as the byte, each of them as one of the
/// sixteen.
pub proof fn hexadecimals_read_back(b: u8)
    ensures
        hex2(b).len() == 2,
        16 * hex_value(hex2(b)[0]) + hex_value(hex2(b)[1]) == b,
        0 <= hex_value(hex2(b)[0]) < 16,
        0 <= hex_value(hex2(b)[1]) < 16,
        forall|i: int|
            0 <= i < 2 ==> '0' as int <= #[trigger] hex2(b)[i] as int <= '9' as int || 'A' as int
                <= hex2(b)[i] as int <= 'F' as int,
{
}

} // verus!
