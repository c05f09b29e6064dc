//! Decimal notation for the exit codes that appear in messages.

use vstd::prelude::*;
use vstd::string::*;

verus! {

/// The character for a single decimal digit.
pub open spec fn digit(d: nat) -> char
    recommends
        d < 10,
{
    if d == 0 {
        '0'
    } else if d == 1 {
        '1'
    } else if d == 2 {
        '2'
    } else if d == 3 {
        '3'
    } else if d == 4 {
        '4'
    } else if d == 5 {
        '5'
    } else if d == 6 {
        '6'
    } else if d == 7 {
        '7'
    } else if d == 8 {
        '8'
    } else {
        '9'
    }
}

/// The digits of `n`, most significant first, without leading zeros.
pub open spec fn digits(n: nat) -> Seq<char>
    decreases n,
{
    if n < 10 {
        seq![digit(n)]
    } else {
        digits(n / 10).push(digit(n % 10))
    }
}

/// The decimal notation of `value`: a minus sign for a negative number, then
/// the digits of its magnitude.
pub open spec fn decimal(value: int) -> Seq<char> {
    if value < 0 {
        seq!['-'] + digits((-value) as nat)
    } else {
        digits(value as nat)
    }
}

/// The digit `d` as text.
fn digit_str(d: u32) -> (text: &'static str)
    requires
        d < 10,
    ensures
        text@ == seq![digit(d as nat)],
{
    proof {
        reveal_strlit("0");
        reveal_strlit("1");
        reveal_strlit("2");
        reveal_strlit("3");
        reveal_strlit("4");
        reveal_strlit("5");
        reveal_strlit("6");
        reveal_strlit("7");
        reveal_strlit("8");
        reveal_strlit("9");
    }
    if d == 0 {
        "0"
    } else if d == 1 {
        "1"
    } else if d == 2 {
        "2"
    } else if d == 3 {
        "3"
    } else if d == 4 {
        "4"
    } else if d == 5 {
        "5"
    } else if d == 6 {
        "6"
    } else if d == 7 {
        "7"
    } else if d == 8 {
        "8"
    } else {
        "9"
    }
}

/// Appends the digits of `n` to `out`.
fn push_digits(out: &mut String, n: u32)
    ensures
        final(out)@ == old(out)@ + digits(n as nat),
    decreases n,
{
    if n >= 10 {
        push_digits(out, n / 10);
    }
    out.append(digit_str(n % 10));
}

/// Appends the decimal notation of `value` to `out`.
pub fn push_decimal(out: &mut String, value: i32)
    ensures
        final(out)@ == old(out)@ + decimal(value as int),
{
    if value < 0 {
        proof {
            reveal_strlit("-");
        }
        out.append("-");
        let magnitude: u32 = if value == i32::MIN {
            2147483648u32
        } else {
            (-value) as u32
        };
        push_digits(out, magnitude);
    } else {
        push_digits(out, value as u32);
    }
}

/// The decimal notation of `value`.
pub fn decimal_string(value: i32) -> (text: String)
    ensures
        text@ == decimal(value as int),
{
    let mut text = String::new();
    push_decimal(&mut text, value);
    text
}

/// The number a digit stands for.
pub open spec fn digit_value(c: char) -> nat {
    if c == '1' {
        1
    } else if c == '2' {
        2
    } else if c == '3' {
        3
    } else if c == '4' {
        4
    } else if c == '5' {
        5
    } else if c == '6' {
        6
    } else if c == '7' {
        7
    } else if c == '8' {
        8
    } else if c == '9' {
        9
    } else {
        0
    }
}

/// The number a row of digits stands for, the last digit counting once, the
/// one before it ten times, and so on.
pub open spec fn digits_value(row: Seq<char>) -> nat
    decreases row.len(),
{
    if row.len() == 0 {
        0
    } else {
        10 * digits_value(row.drop_last()) + digit_value(row.last())
    }
}

/// The number a decimal notation stands for.
pub open spec fn decimal_value(text: Seq<char>) -> int {
    if text.len() > 0 && text[0] == '-' {
        -(digits_value(text.skip(1)) as int)
    } else {
        digits_value(text) as int
    }
}

/// The digits of a number stand for that number; there is at least one,
/// and the first is a zero only where the number is zero.
pub proof fn lemma_digits_read_back(n: nat)
    ensures
        digits_value(digits(n)) == n,
        digits(n).len() >= 1,
        digits(n)[0] != '-',
        digits(n)[0] == '0' <==> n == 0,
    decreases n,
{
    let row = digits(n);
    if n >= 10 {
        lemma_digits_read_back(n / 10);
        assert(row.drop_last() =~= digits(n / 10));
    }
    assert(digits_value(row) == 10 * digits_value(row.drop_last()) + digit_value(row.last()));
}

/// The decimal notation of a number stands for that number.
pub proof fn lemma_decimal_reads_back(value: int)
    ensures
        decimal_value(decimal(value)) == value,
{
    if value < 0 {
        let magnitude = (-value) as nat;
        lemma_digits_read_back(magnitude);
        assert(decimal(value).skip(1) =~= digits(magnitude));
    } else {
        lemma_digits_read_back(value as nat);
    }
}

} // verus!
