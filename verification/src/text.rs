//! Pieces of the messages that the programs print.

use vstd::arithmetic::div_mod;
use vstd::arithmetic::power;
use vstd::prelude::*;

verus! {

/// The digit of value `d`, in any base up to sixteen.
pub open spec fn digit(d: int) -> char {
    "0123456789abcdef"@[d]
}

/// `n` in decimal notation, without leading zeros.
pub open spec fn decimal_nat(n: nat) -> Seq<char>
    decreases n,
{
    if n < 10 {
        seq![digit(n as int)]
    } else {
        decimal_nat(n / 10).push(digit((n % 10) as int))
    }
}

/// `n` in decimal notation, with a sign where it is negative.
pub open spec fn decimal(n: int) -> Seq<char> {
    if n < 0 {
        seq!['-'] + decimal_nat((-n) as nat)
    } else {
        decimal_nat(n as nat)
    }
}

/// The `width` least significant hexadecimal digits of `n`, most significant
/// first.
pub open spec fn hex(n: nat, width: nat) -> Seq<char>
    decreases width,
{
    if width == 0 {
        Seq::empty()
    } else {
        hex(n / 16, (width - 1) as nat).push(digit((n % 16) as int))
    }
}

/// `a` followed by `b`.
pub fn joined(a: &str, b: &str) -> (text: String)
    ensures
        text@ == a@ + b@,
{
    let mut text: String = a.to_owned();
    text.append(b);
    text
}

fn push_digit(text: &mut String, d: usize)
    requires
        d < 16,
    ensures
        final(text)@ == old(text)@.push(digit(d as int)),
{
    let digits = "0123456789abcdef";
    proof {
        reveal_strlit("0123456789abcdef");
    }
    text.append(digits.substring_char(d, d + 1));
    assert(text@ =~= old(text)@.push(digit(d as int)));
}

fn decimal_nat_text(n: u64) -> (text: String)
    ensures
        text@ == decimal_nat(n as nat),
    decreases n,
{
    if n < 10 {
        let mut text: String = String::new();
        push_digit(&mut text, n as usize);
        assert(text@ =~= seq![digit(n as int)]);
        text
    } else {
        let mut text = decimal_nat_text(n / 10);
        push_digit(&mut text, (n % 10) as usize);
        text
    }
}

/// `n` in decimal notation.
pub fn decimal_text(n: i64) -> (text: String)
    ensures
        text@ == decimal(n as int),
{
    if n < 0 {
        let digits = decimal_nat_text((-(n as i128)) as u64);
        proof {
            reveal_strlit("-");
            assert("-"@ =~= seq!['-']);
        }
        joined("-", digits.as_str())
    } else {
        decimal_nat_text(n as u64)
    }
}

/// The `width` least significant hexadecimal digits of `n`.
pub fn hex_text(n: u64, width: usize) -> (text: String)
    ensures
        text@ == hex(n as nat, width as nat),
    decreases width,
{
    if width == 0 {
        String::new()
    } else {
        let mut text = hex_text(n / 16, width - 1);
        push_digit(&mut text, (n % 16) as usize);
        text
    }
}

/// A decimal digit.
pub open spec fn is_decimal_digit(c: char) -> bool {
    '0' <= c <= '9'
}

/// A hexadecimal digit, in lower case.
pub open spec fn is_hex_digit(c: char) -> bool {
    '0' <= c <= '9' || 'a' <= c <= 'f'
}

/// The number that the decimal digits `s` spell.
pub open spec fn read_decimal(s: Seq<char>) -> int
    decreases s.len(),
{
    if s.len() == 0 {
        0
    } else {
        10 * read_decimal(s.drop_last()) + (s.last() as int - '0' as int)
    }
}

/// The number that the hexadecimal digits `s` spell.
pub open spec fn read_hex(s: Seq<char>) -> int
    decreases s.len(),
{
    if s.len() == 0 {
        0
    } else {
        16 * read_hex(s.drop_last()) + if s.last() <= '9' {
            s.last() as int - '0' as int
        } else {
            s.last() as int - 'a' as int + 10
        }
    }
}

/// The decimal digits that `s` starts with, up to the first other character.
pub open spec fn leading_digits(s: Seq<char>) -> Seq<char>
    decreases s.len(),
{
    if s.len() == 0 || !is_decimal_digit(s[0]) {
        Seq::empty()
    } else {
        seq![s[0]] + leading_digits(s.drop_first())
    }
}

/// Ten digits stand for the numbers below ten, and the first six letters for
/// those from ten to fifteen.
pub proof fn law_digits(d: int)
    requires
        0 <= d < 16,
    ensures
        d < 10 ==> digit(d) as int == '0' as int + d,
        d >= 10 ==> digit(d) as int == 'a' as int + (d - 10),
{
    reveal_strlit("0123456789abcdef");
}

/// Decimal notation is made of decimal digits, does not start with a zero but for
/// zero itself, and reads back as the number.
pub proof fn law_decimal_nat_reads_back(n: nat)
    ensures
        decimal_nat(n).len() > 0,
        forall|i: int|
            0 <= i < decimal_nat(n).len() ==> is_decimal_digit(#[trigger] decimal_nat(n)[i]),
        decimal_nat(n)[0] == '0' ==> n == 0,
        n == 0 ==> decimal_nat(n) == seq!['0'],
        read_decimal(decimal_nat(n)) == n,
    decreases n,
{
    if n < 10 {
        law_digits(n as int);
        reveal_with_fuel(read_decimal, 2);
        assert(decimal_nat(n).drop_last() =~= Seq::<char>::empty());
    } else {
        law_decimal_nat_reads_back(n / 10);
        law_digits((n % 10) as int);
        assert(decimal_nat(n).drop_last() =~= decimal_nat(n / 10));
    }
}

/// The decimal notation of a number that is not negative is that of a natural
/// number, and reads back as the number; that of a negative one is a minus sign
/// and the notation of its absolute value.
pub proof fn law_decimal_reads_back(n: int)
    ensures
        n >= 0 ==> read_decimal(decimal(n)) == n,
        n >= 0 ==> leading_digits(decimal(n)) == decimal(n),
        n < 0 ==> decimal(n)[0] == '-' && decimal(n).drop_first() == decimal(-n),
{
    if n >= 0 {
        law_decimal_nat_reads_back(n as nat);
        lemma_leading_digits(decimal(n), Seq::empty());
        assert(decimal(n) + Seq::<char>::empty() =~= decimal(n));
    } else {
        assert(decimal(n).drop_first() =~= decimal(-n));
    }
}

/// Two numbers with the same decimal notation are the same.
pub proof fn law_decimal_tells_numbers_apart(m: int, n: int)
    requires
        decimal(m) == decimal(n),
    ensures
        m == n,
{
    let a: nat = if m < 0 {
        (-m) as nat
    } else {
        m as nat
    };
    let b: nat = if n < 0 {
        (-n) as nat
    } else {
        n as nat
    };
    law_decimal_nat_reads_back(a);
    law_decimal_nat_reads_back(b);
    assert(is_decimal_digit(decimal_nat(a)[0]));
    assert(is_decimal_digit(decimal_nat(b)[0]));
    if m < 0 && n < 0 {
        law_decimal_reads_back(m);
        law_decimal_reads_back(n);
    }
}

/// Digits are the leading digits of a text that goes on with something else.
pub proof fn lemma_leading_digits(digits: Seq<char>, rest: Seq<char>)
    requires
        forall|i: int| 0 <= i < digits.len() ==> is_decimal_digit(#[trigger] digits[i]),
        rest.len() > 0 ==> !is_decimal_digit(rest[0]),
    ensures
        leading_digits(digits + rest) == digits,
    decreases digits.len(),
{
    if digits.len() == 0 {
        assert(digits + rest =~= rest);
    } else {
        let tail = digits.drop_first();
        assert forall|i: int| 0 <= i < tail.len() implies is_decimal_digit(#[trigger] tail[i]) by {
            assert(is_decimal_digit(digits[i + 1]));
        }
        lemma_leading_digits(tail, rest);
        assert(is_decimal_digit(digits[0]));
        assert((digits + rest).drop_first() =~= tail + rest);
        assert(seq![digits[0]] + tail =~= digits);
    }
}

/// Hexadecimal notation of a given width has that many hexadecimal digits, and
/// reads back as the number, or what is left of it where that many digits cannot
/// hold it.
pub proof fn law_hex_reads_back(n: nat, width: nat)
    ensures
        hex(n, width).len() == width,
        forall|i: int| 0 <= i < width ==> is_hex_digit(#[trigger] hex(n, width)[i]),
        read_hex(hex(n, width)) == n as int % power::pow(16, width),
        n < power::pow(16, width) ==> read_hex(hex(n, width)) == n,
    decreases width,
{
    reveal(power::pow);
    power::lemma_pow_positive(16, width);
    if width > 0 {
        let above = power::pow(16, (width - 1) as nat);
        law_hex_reads_back(n / 16, (width - 1) as nat);
        law_digits((n % 16) as int);
        power::lemma_pow_positive(16, (width - 1) as nat);
        div_mod::lemma_mod_breakdown(n as int, 16, above);
        assert(hex(n, width).drop_last() =~= hex(n / 16, (width - 1) as nat));
    }
    if n < power::pow(16, width) {
        div_mod::lemma_small_mod(n, power::pow(16, width) as nat);
    }
}

} // verus!
