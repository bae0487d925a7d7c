//! Numbers as text.

use vstd::prelude::*;
use vstd::string::*;

verus! {

/// The digit with a value below sixteen.
pub open spec fn digit(d: nat) -> Seq<char> {
    if d == 0 {
        "0"@
    } else if d == 1 {
        "1"@
    } else if d == 2 {
        "2"@
    } else if d == 3 {
        "3"@
    } else if d == 4 {
        "4"@
    } else if d == 5 {
        "5"@
    } else if d == 6 {
        "6"@
    } else if d == 7 {
        "7"@
    } else if d == 8 {
        "8"@
    } else if d == 9 {
        "9"@
    } else if d == 10 {
        "a"@
    } else if d == 11 {
        "b"@
    } else if d == 12 {
        "c"@
    } else if d == 13 {
        "d"@
    } else if d == 14 {
        "e"@
    } else {
        "f"@
    }
}

/// A number in decimal.
pub open spec fn dec(n: nat) -> Seq<char>
    decreases n,
{
    if n < 10 {
        digit(n)
    } else {
        dec(n / 10) + digit(n % 10)
    }
}

/// A number in lower-case hexadecimal.
pub open spec fn hex(n: nat) -> Seq<char>
    decreases n,
{
    if n < 16 {
        digit(n)
    } else {
        hex(n / 16) + digit(n % 16)
    }
}

/// A 16-bit number as four hexadecimal digits.
pub open spec fn hex4(n: nat) -> Seq<char> {
    digit((n / 0x1000) % 16) + digit((n / 0x100) % 16) + digit((n / 0x10) % 16) + digit(n % 16)
}

fn digit_str(d: u64) -> (ret: &'static str)
    requires
        d < 16,
    ensures
        ret@ == digit(d as nat),
{
    match d {
        0 => "0",
        1 => "1",
        2 => "2",
        3 => "3",
        4 => "4",
        5 => "5",
        6 => "6",
        7 => "7",
        8 => "8",
        9 => "9",
        10 => "a",
        11 => "b",
        12 => "c",
        13 => "d",
        14 => "e",
        _ => "f",
    }
}

/// Appends a number in decimal.
pub fn push_dec(s: &mut String, n: u64)
    ensures
        final(s)@ == old(s)@ + dec(n as nat),
    decreases n,
{
    if n >= 10 {
        push_dec(s, n / 10);
        s.append(digit_str(n % 10));
        assert(s@ =~= old(s)@ + (dec(n as nat / 10) + digit(n as nat % 10)));
    } else {
        s.append(digit_str(n));
    }
}

/// Appends a number in hexadecimal.
pub fn push_hex(s: &mut String, n: u64)
    ensures
        final(s)@ == old(s)@ + hex(n as nat),
    decreases n,
{
    if n >= 16 {
        push_hex(s, n / 16);
        s.append(digit_str(n % 16));
        assert(s@ =~= old(s)@ + (hex(n as nat / 16) + digit(n as nat % 16)));
    } else {
        s.append(digit_str(n));
    }
}

/// Appends a 16-bit number as four hexadecimal digits.
pub fn push_hex4(s: &mut String, n: u16)
    ensures
        final(s)@ == old(s)@ + hex4(n as nat),
{
    let n: u64 = n as u64;
    s.append(digit_str((n / 0x1000) % 16));
    s.append(digit_str((n / 0x100) % 16));
    s.append(digit_str((n / 0x10) % 16));
    s.append(digit_str(n % 16));
    assert(s@ =~= old(s)@ + hex4(n as nat));
}

/// The value of a digit.
pub open spec fn digit_value(c: char) -> int {
    if '0' <= c && c <= '9' {
        c as int - '0' as int
    } else if 'a' <= c && c <= 'f' {
        c as int - 'a' as int + 10
    } else {
        16
    }
}

/// The number that digits stand for to a base, the most significant one first.
pub open spec fn value(text: Seq<char>, base: int) -> int
    decreases text.len(),
{
    if text.len() == 0 {
        0
    } else {
        value(text.drop_last(), base) * base + digit_value(text.last())
    }
}

/// Whether a text has nothing but digits to a base in it, and at least one.
pub open spec fn all_digits(text: Seq<char>, base: int) -> bool {
    text.len() > 0 && forall|i: int| 0 <= i < text.len() ==> digit_value(#[trigger] text[i]) < base
}

/// A digit is one character, with its value.
pub proof fn digit_has_its_value(d: nat)
    requires
        d < 16,
    ensures
        digit(d).len() == 1,
        digit_value(digit(d)[0]) == d,
{
    reveal_strlit("0");
    reveal_strlit("1");
    reveal_strlit("2");
    reveal_strlit("3");
    reveal_strlit("4");
    reveal_strlit("5");
    reveal_strlit("6");
    reveal_strlit("7");
    reveal_strlit("8");
    reveal_strlit("9");
    reveal_strlit("a");
    reveal_strlit("b");
    reveal_strlit("c");
    reveal_strlit("d");
    reveal_strlit("e");
    reveal_strlit("f");
}

proof fn value_of_longer(text: Seq<char>, d: nat, base: int)
    requires
        d < 16,
    ensures
        value(text + digit(d), base) == value(text, base) * base + d,
        all_digits(text, base) && d < base ==> all_digits(text + digit(d), base),
        d < base ==> all_digits(digit(d), base),
        value(digit(d), base) == d,
{
    digit_has_its_value(d);
    assert((text + digit(d)).drop_last() =~= text);
    assert(digit(d).drop_last() =~= Seq::<char>::empty());
    assert(value(Seq::<char>::empty(), base) * base == 0) by (nonlinear_arith)
        requires
            value(Seq::<char>::empty(), base) == 0,
    ;
}

/// A number in decimal is made of decimal digits, stands for the number, and has no leading zero.
pub proof fn decimal_stands_for_its_number(n: nat)
    ensures
        value(dec(n), 10) == n,
        all_digits(dec(n), 10),
        n > 0 ==> digit_value(dec(n)[0]) > 0,
    decreases n,
{
    if n < 10 {
        value_of_longer(Seq::empty(), n, 10);
        digit_has_its_value(n);
    } else {
        decimal_stands_for_its_number(n / 10);
        value_of_longer(dec(n / 10), n % 10, 10);
        assert(dec(n)[0] == dec(n / 10)[0]);
    }
}

/// A number in hexadecimal is made of hexadecimal digits, stands for the number, and has no
/// leading zero.
pub proof fn hexadecimal_stands_for_its_number(n: nat)
    ensures
        value(hex(n), 16) == n,
        all_digits(hex(n), 16),
        n > 0 ==> digit_value(hex(n)[0]) > 0,
    decreases n,
{
    if n < 16 {
        value_of_longer(Seq::empty(), n, 16);
        digit_has_its_value(n);
    } else {
        hexadecimal_stands_for_its_number(n / 16);
        value_of_longer(hex(n / 16), n % 16, 16);
        assert(hex(n)[0] == hex(n / 16)[0]);
    }
}

/// A 16-bit number in four hexadecimal digits is that long, and stands for the number.
pub proof fn four_digits_stand_for_their_number(n: nat)
    requires
        n < 0x1_0000,
    ensures
        hex4(n).len() == 4,
        all_digits(hex4(n), 16),
        value(hex4(n), 16) == n,
{
    let a = n / 0x1000;
    let b = (n / 0x100) % 16;
    let c = (n / 0x10) % 16;
    let d = n % 16;
    digit_has_its_value(a);
    digit_has_its_value(b);
    digit_has_its_value(c);
    digit_has_its_value(d);
    value_of_longer(digit(a), b, 16);
    value_of_longer(digit(a), a, 16);
    value_of_longer(digit(a) + digit(b), c, 16);
    value_of_longer(digit(a) + digit(b) + digit(c), d, 16);
    assert((n / 0x1000) % 16 == a);
    assert(n == 16 * (16 * (16 * a + b) + c) + d);
}

} // verus!
