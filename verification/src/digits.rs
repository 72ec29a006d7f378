//! Digits: the characters that stand for small numbers, and the decimal
//! and hexadecimal spellings built from them.

use vstd::prelude::*;
use vstd::string::*;

verus! {

/// The character that stands for the digit `d`, for `d` below sixteen:
/// `'0'` to `'9'`, then `'A'` to `'F'`. The code of `'0'` is 48 and that of
/// `'A'` is 65.
pub open spec fn digit_char(d: nat) -> char {
    if d < 10 {
        ((48 + d) as u8) as char
    } else {
        ((55 + d) as u8) as char
    }
}

/// The decimal spelling of `n`, without leading zeros; zero is `"0"`.
pub open spec fn decimal(n: nat) -> Seq<char>
    decreases n,
{
    if n < 10 {
        seq![digit_char(n)]
    } else {
        decimal(n / 10).push(digit_char(n % 10))
    }
}

/// The three-digit decimal spelling of a number below one thousand, with
/// leading zeros.
pub open spec fn three_digits(n: nat) -> Seq<char> {
    seq![digit_char(n / 100 % 10), digit_char(n / 10 % 10), digit_char(n % 10)]
}

/// The two-digit upper-case hexadecimal spelling of a byte; values below
/// sixteen get a leading `'0'`.
pub open spec fn hex_pair(b: u8) -> Seq<char> {
    seq![digit_char((b / 16) as nat), digit_char((b % 16) as nat)]
}

/// The number that the hexadecimal digit `c` stands for, in either case;
/// `None` where `c` is no hexadecimal digit.
pub open spec fn hex_value(c: char) -> Option<u8> {
    if '0' <= c <= '9' {
        Some((c as u32 - 48) as u8)
    } else if 'A' <= c <= 'F' {
        Some((c as u32 - 55) as u8)
    } else if 'a' <= c <= 'f' {
        Some((c as u32 - 87) as u8)
    } else {
        None
    }
}

/// The byte that two hexadecimal digits spell, the first one counting
/// sixteen-fold; `None` where either is no hexadecimal digit.
pub open spec fn hex_pair_value(high: char, low: char) -> Option<u8> {
    match (hex_value(high), hex_value(low)) {
        (Some(h), Some(l)) => Some((16 * h + l) as u8),
        _ => None,
    }
}

/// The number that a decimal digit stands for; zero for any other
/// character.
pub open spec fn decimal_digit_value(c: char) -> nat {
    if '0' <= c <= '9' {
        (c as u32 - 48) as nat
    } else {
        0
    }
}

/// The number that a string of decimal digits spells, the last digit
/// counting once, the one before it ten-fold, and so on.
pub open spec fn decimal_value(s: Seq<char>) -> nat
    decreases s.len(),
{
    if s.len() == 0 {
        0
    } else {
        10 * decimal_value(s.drop_last()) + decimal_digit_value(s.last())
    }
}

/// The decimal spelling of a number holds decimal digits only, starts with
/// `'0'` for zero alone, and spells that number.
pub proof fn lemma_decimal_reads_back(n: nat)
    ensures
        decimal(n).len() >= 1,
        forall|i: int| 0 <= i < decimal(n).len() ==> '0' <= #[trigger] decimal(n)[i] <= '9',
        n > 0 ==> decimal(n)[0] != '0',
        decimal_value(decimal(n)) == n,
    decreases n,
{
    let s = decimal(n);
    assert(decimal_digit_value(digit_char(n % 10)) == n % 10);
    if n < 10 {
        assert(s.drop_last() =~= Seq::<char>::empty());
        assert(decimal_value(s.drop_last()) == 0);
    } else {
        lemma_decimal_reads_back(n / 10);
        assert(s.drop_last() =~= decimal(n / 10));
    }
    assert(s.last() == digit_char(n % 10));
    assert(decimal_value(s) == 10 * decimal_value(s.drop_last()) + decimal_digit_value(s.last()));
}

/// The three-digit spelling of a number below one thousand has three
/// decimal digits and spells that number.
pub proof fn lemma_three_digits_read_back(n: nat)
    requires
        n < 1000,
    ensures
        three_digits(n).len() == 3,
        forall|i: int| 0 <= i < 3 ==> '0' <= #[trigger] three_digits(n)[i] <= '9',
        decimal_value(three_digits(n)) == n,
{
    let s = three_digits(n);
    assert(s.drop_last().drop_last().drop_last() =~= Seq::<char>::empty());
    reveal_with_fuel(decimal_value, 4);
}

/// The sixteen digits, one by one.
pub proof fn lemma_digit_chars()
    ensures
        digit_char(0) == '0',
        digit_char(1) == '1',
        digit_char(2) == '2',
        digit_char(3) == '3',
        digit_char(4) == '4',
        digit_char(5) == '5',
        digit_char(6) == '6',
        digit_char(7) == '7',
        digit_char(8) == '8',
        digit_char(9) == '9',
        digit_char(10) == 'A',
        digit_char(11) == 'B',
        digit_char(12) == 'C',
        digit_char(13) == 'D',
        digit_char(14) == 'E',
        digit_char(15) == 'F',
{
}

/// Reading a digit's character gives the digit back.
pub proof fn lemma_hex_value_of_digit(d: nat)
    requires
        d < 16,
    ensures
        hex_value(digit_char(d)) == Some(d as u8),
{
}

/// A character has a hexadecimal value only where it is the character of
/// that digit, or its lower-case form, whose code is 32 higher.
pub proof fn lemma_hex_value_is_of_digit(c: char)
    ensures
        hex_value(c) matches Some(v) ==> {
            &&& v < 16
            &&& c == digit_char(v as nat) || (v >= 10 && c as u32 == digit_char(v as nat) as u32
                + 32)
        },
{
}

/// Reading the two-digit spelling of a byte gives the byte back.
pub proof fn lemma_hex_pair_round_trip(b: u8)
    ensures
        hex_pair(b).len() == 2,
        hex_pair_value(hex_pair(b)[0], hex_pair(b)[1]) == Some(b),
{
    lemma_hex_value_of_digit((b / 16) as nat);
    lemma_hex_value_of_digit((b % 16) as nat);
}

/// A one-character string slice that holds the digit `d`.
pub(crate) fn digit_str(d: u8) -> (r: &'static str)
    requires
        d < 16,
    ensures
        r@ == seq![digit_char(d as nat)],
{
    proof {
        reveal_strlit("0");
        reveal_strlit("1");
        reveal_strlit("2");
        reveal_strlit("3");
        reveal_strlit("4");
        reveal_strlit("5");
        reveal_strlit("6");
        reveal_strlit("7");
        reveal_strlit("8");
        reveal_strlit("9");
        reveal_strlit("A");
        reveal_strlit("B");
        reveal_strlit("C");
        reveal_strlit("D");
        reveal_strlit("E");
        reveal_strlit("F");
    }
    let r = match d {
        0 => "0",
        1 => "1",
        2 => "2",
        3 => "3",
        4 => "4",
        5 => "5",
        6 => "6",
        7 => "7",
        8 => "8",
        9 => "9",
        10 => "A",
        11 => "B",
        12 => "C",
        13 => "D",
        14 => "E",
        _ => "F",
    };
    assert(r@ =~= seq![digit_char(d as nat)]);
    r
}

/// Appends the decimal spelling of `n` to `out`.
pub fn push_decimal(out: &mut String, n: u128)
    ensures
        final(out)@ == old(out)@ + decimal(n as nat),
    decreases n,
{
    if n >= 10 {
        push_decimal(out, n / 10);
    }
    out.append(digit_str((n % 10) as u8));
}

/// Appends the three-digit decimal spelling of `n` to `out`.
pub(crate) fn push_three_digits(out: &mut String, n: u16)
    requires
        n < 1000,
    ensures
        final(out)@ == old(out)@ + three_digits(n as nat),
{
    out.append(digit_str((n / 100 % 10) as u8));
    out.append(digit_str((n / 10 % 10) as u8));
    out.append(digit_str((n % 10) as u8));
}

/// Appends the two-digit hexadecimal spelling of `b` to `out`.
pub fn push_hex_pair(out: &mut String, b: u8)
    ensures
        final(out)@ == old(out)@ + hex_pair(b),
{
    out.append(digit_str(b / 16));
    out.append(digit_str(b % 16));
}

/// Reads one hexadecimal digit.
pub fn hex_digit_value(c: char) -> (r: Option<u8>)
    ensures
        r == hex_value(c),
{
    if '0' <= c && c <= '9' {
        Some((c as u32 - 48) as u8)
    } else if 'A' <= c && c <= 'F' {
        Some((c as u32 - 55) as u8)
    } else if 'a' <= c && c <= 'f' {
        Some((c as u32 - 87) as u8)
    } else {
        None
    }
}

/// Reads two hexadecimal digits as one byte.
pub fn read_hex_pair(high: char, low: char) -> (r: Option<u8>)
    ensures
        r == hex_pair_value(high, low),
{
    match (hex_digit_value(high), hex_digit_value(low)) {
        (Some(h), Some(l)) => Some(16 * h + l),
        _ => None,
    }
}

} // verus!
