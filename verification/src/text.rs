//! Numbers written out as text.

use vstd::prelude::*;

verus! {

/// The character of a decimal digit.
pub open spec fn digit_char(d: int) -> char {
    ('0' as int + d) as char
}

/// A natural number in decimal, without leading zeros.
pub open spec fn digits(n: nat) -> Seq<char>
    decreases n,
{
    if n < 10 {
        seq![digit_char(n as int)]
    } else {
        digits(n / 10).push(digit_char((n % 10) as int))
    }
}

/// An integer in decimal, with a leading `-` when negative.
pub open spec fn decimal(n: int) -> Seq<char> {
    if n < 0 {
        seq!['-'] + digits((-n) as nat)
    } else {
        digits(n as nat)
    }
}

/// The last `width` decimal digits of `n`, zeros included.
pub open spec fn last_digits(n: nat, width: nat) -> Seq<char>
    decreases width,
{
    if width == 0 {
        Seq::empty()
    } else {
        last_digits(n / 10, (width - 1) as nat).push(digit_char((n % 10) as int))
    }
}

/// The upper-case character of a hexadecimal digit.
pub open spec fn hex_char(d: int) -> char {
    if d < 10 {
        digit_char(d)
    } else {
        ('A' as int + (d - 10)) as char
    }
}

/// A 32-bit integer takes at most eleven characters, and at least one.
pub(crate) proof fn lemma_decimal_len(n: int)
    requires
        -0x8000_0000 <= n <= 0x8000_0000,
    ensures
        1 <= decimal(n).len() <= 11,
{
    reveal_with_fuel(digits, 11);
}

/// The number that a string of decimal digits stands for.
pub open spec fn number(s: Seq<char>) -> int
    decreases s.len(),
{
    if s.len() == 0 {
        0
    } else {
        10 * number(s.drop_last()) + (s.last() as int - '0' as int)
    }
}

/// Reading a number back from its digits.
pub(crate) proof fn lemma_digits_read(n: nat)
    ensures
        number(digits(n)) == n,
        digits(n).len() > 0,
        '0' <= digits(n)[0] <= '9',
    decreases n,
{
    if n < 10 {
        assert(digits(n).drop_last() =~= Seq::empty());
        reveal_with_fuel(number, 2);
    } else {
        lemma_digits_read(n / 10);
        assert(digits(n).drop_last() =~= digits(n / 10));
    }
}

/// Reading a number back from all of its digits, leading zeros included.
pub(crate) proof fn lemma_last_digits_read(n: nat, width: nat)
    ensures
        last_digits(n, width).len() == width,
        width > 0 ==> '0' <= last_digits(n, width)[0] <= '9',
        width == 2 && n < 100 ==> number(last_digits(n, width)) == n,
        width == 4 && n < 10_000 ==> number(last_digits(n, width)) == n,
    decreases width,
{
    if width > 0 {
        lemma_last_digits_read(n / 10, (width - 1) as nat);
    }
    if width == 2 {
        reveal_with_fuel(last_digits, 3);
        let s = last_digits(n, 2);
        assert(s.drop_last().drop_last() =~= Seq::empty());
        reveal_with_fuel(number, 3);
    }
    if width == 4 {
        reveal_with_fuel(last_digits, 5);
        let s = last_digits(n, 4);
        assert(s.drop_last().drop_last().drop_last().drop_last() =~= Seq::empty());
        reveal_with_fuel(number, 5);
    }
}

/// A number ends in the character of its last digit, and what stands before is the
/// number without that digit; nothing stands before a single digit.
pub proof fn law_decimal_digits(n: nat)
    ensures
        digits(n).len() > 0,
        digits(n).last() as int == 48 + n % 10,
        n < 10 ==> digits(n).len() == 1,
        n >= 10 ==> digits(n).drop_last() == digits(n / 10),
        decimal(n as int) == digits(n),
        n > 0 ==> decimal(-(n as int)) == seq!['-'] + digits(n),
        number(digits(n)) == n,
{
    lemma_digits_read(n);
    if n >= 10 {
        assert(digits(n).drop_last() =~= digits(n / 10));
    }
}

/// A number written with a fixed number of digits has that many, each the digit of
/// its place.
pub proof fn law_last_digits(n: nat, width: nat)
    ensures
        last_digits(n, width).len() == width,
        width > 0 ==> last_digits(n, width).last() as int == 48 + n % 10,
        width > 0 ==> last_digits(n, width).drop_last() == last_digits(n / 10, (width - 1) as nat),
    decreases width,
{
    if width > 0 {
        law_last_digits(n / 10, (width - 1) as nat);
        assert(last_digits(n, width).drop_last() =~= last_digits(n / 10, (width - 1) as nat));
    }
}

/// Hexadecimal digits are the decimal ones and the letters `A` to `F`.
pub proof fn law_hex_digits(d: int)
    ensures
        0 <= d < 10 ==> hex_char(d) as int == 48 + d,
        10 <= d < 16 ==> hex_char(d) as int == 55 + d,
{
}

/// A string of digits stands for ten times what it stands for without its last
/// digit, and that digit.
pub proof fn law_number_is_positional(s: Seq<char>, c: char)
    ensures
        number(Seq::empty()) == 0,
        number(s.push(c)) == 10 * number(s) + (c as int - 48),
{
    assert(s.push(c).drop_last() =~= s);
}

/// The character of a decimal digit.
fn digit(d: u64) -> (c: char)
    requires
        d < 10,
    ensures
        c == digit_char(d as int),
{
    match d {
        0 => '0',
        1 => '1',
        2 => '2',
        3 => '3',
        4 => '4',
        5 => '5',
        6 => '6',
        7 => '7',
        8 => '8',
        _ => '9',
    }
}

/// Append the decimal digits of `n` to a list of characters.
pub(crate) fn push_digits(out: &mut Vec<char>, n: u64)
    ensures
        final(out)@ == old(out)@ + digits(n as nat),
    decreases n,
{
    if n >= 10 {
        push_digits(out, n / 10);
    }
    out.push(digit(n % 10));
}

/// Append `n` in decimal to a list of characters.
pub(crate) fn push_decimal(out: &mut Vec<char>, n: i32)
    ensures
        final(out)@ == old(out)@ + decimal(n as int),
{
    if n < 0 {
        out.push('-');
        push_digits(out, (-(n as i64)) as u64);
    } else {
        push_digits(out, n as u64);
    }
}

/// Append one hexadecimal digit to a string.
pub(crate) fn append_hex_digit(out: &mut String, d: u8)
    requires
        d < 16,
    ensures
        final(out)@ == old(out)@.push(hex_char(d as int)),
{
    let piece: &str = match d {
        0 => "0",
        1 => "1",
        2 => "2",
        3 => "3",
        4 => "4",
        5 => "5",
        6 => "6",
        7 => "7",
        8 => "8",
        9 => "9",
        10 => "A",
        11 => "B",
        12 => "C",
        13 => "D",
        14 => "E",
        _ => "F",
    };
    proof {
        reveal_strlit("0");
        reveal_strlit("1");
        reveal_strlit("2");
        reveal_strlit("3");
        reveal_strlit("4");
        reveal_strlit("5");
        reveal_strlit("6");
        reveal_strlit("7");
        reveal_strlit("8");
        reveal_strlit("9");
        reveal_strlit("A");
        reveal_strlit("B");
        reveal_strlit("C");
        reveal_strlit("D");
        reveal_strlit("E");
        reveal_strlit("F");
        assert(piece@ =~= seq![hex_char(d as int)]);
    }
    out.append(piece);
}

/// Append `n` in decimal to a string.
pub(crate) fn append_decimal(out: &mut String, n: u64)
    ensures
        final(out)@ == old(out)@ + decimal(n as int),
    decreases n,
{
    if n >= 10 {
        append_decimal(out, n / 10);
    }
    append_hex_digit(out, (n % 10) as u8);
}

} // verus!
