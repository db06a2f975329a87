//! Byte order: what a number looks like in memory on a little-endian or a
//! big-endian machine, and how it is converted to and from network order.

use vstd::arithmetic::div_mod;
use vstd::arithmetic::power;
use vstd::endian::Endian;
use vstd::prelude::*;

verus! {

/// The number of values that `n` bytes can hold.
pub open spec fn byte_range(n: nat) -> int
    decreases n,
{
    if n == 0 {
        1
    } else {
        256 * byte_range((n - 1) as nat)
    }
}

/// The `n` least significant base-256 digits of `x`, most significant first.
pub open spec fn be_digits(x: int, n: nat) -> Seq<u8>
    decreases n,
{
    if n == 0 {
        Seq::empty()
    } else {
        be_digits(x / 256, (n - 1) as nat).push((x % 256) as u8)
    }
}

/// The number that `s` spells in base 256, most significant digit first.
pub open spec fn be_value(s: Seq<u8>) -> int
    decreases s.len(),
{
    if s.len() == 0 {
        0
    } else {
        256 * be_value(s.drop_last()) + s.last()
    }
}

/// The `n` bytes that the number `x` occupies in the memory of a machine of
/// the given order.
pub open spec fn native_bytes(order: Endian, x: int, n: nat) -> Seq<u8> {
    match order {
        Endian::Big => be_digits(x, n),
        Endian::Little => be_digits(x, n).reverse(),
    }
}

/// The number that a machine of the given order reads from the bytes `s`.
pub open spec fn native_value(order: Endian, s: Seq<u8>) -> int {
    match order {
        Endian::Big => be_value(s),
        Endian::Little => be_value(s.reverse()),
    }
}

/// The `n`-byte number `x` with its bytes in the opposite order.
pub open spec fn bytes_swapped(x: int, n: nat) -> int {
    be_value(be_digits(x, n).reverse())
}

/// What becomes of the `n`-byte number `x` when a machine of the given order
/// converts it to or from big-endian order: nothing on a big-endian machine, a
/// byte swap on a little-endian one.
pub open spec fn be_converted(order: Endian, x: int, n: nat) -> int {
    match order {
        Endian::Big => x,
        Endian::Little => bytes_swapped(x, n),
    }
}

/// `u16::to_be`: the number is unchanged where the target is big-endian, and
/// has its two bytes swapped where it is little-endian.
pub assume_specification[ u16::to_be ](x: u16) -> (r: u16)
    ensures
        r == be_converted(vstd::endian::endianness(), x as int, 2),
;

/// `u16::from_be`: the number is unchanged where the target is big-endian, and
/// has its two bytes swapped where it is little-endian.
pub assume_specification[ u16::from_be ](x: u16) -> (r: u16)
    ensures
        r == be_converted(vstd::endian::endianness(), x as int, 2),
;

/// `u32::to_be`: the number is unchanged where the target is big-endian, and
/// has its four bytes swapped where it is little-endian.
pub assume_specification[ u32::to_be ](x: u32) -> (r: u32)
    ensures
        r == be_converted(vstd::endian::endianness(), x as int, 4),
;

/// `u32::from_be`: the number is unchanged where the target is big-endian, and
/// has its four bytes swapped where it is little-endian.
pub assume_specification[ u32::from_be ](x: u32) -> (r: u32)
    ensures
        r == be_converted(vstd::endian::endianness(), x as int, 4),
;

/// `u64::to_be`: the number is unchanged where the target is big-endian, and
/// has its eight bytes swapped where it is little-endian.
pub assume_specification[ u64::to_be ](x: u64) -> (r: u64)
    ensures
        r == be_converted(vstd::endian::endianness(), x as int, 8),
;

/// `u64::from_be`: the number is unchanged where the target is big-endian, and
/// has its eight bytes swapped where it is little-endian.
pub assume_specification[ u64::from_be ](x: u64) -> (r: u64)
    ensures
        r == be_converted(vstd::endian::endianness(), x as int, 8),
;

pub proof fn lemma_byte_ranges()
    ensures
        byte_range(1) == 0x100,
        byte_range(2) == 0x1_0000,
        byte_range(4) == 0x1_0000_0000,
        byte_range(8) == 0x1_0000_0000_0000_0000,
{
    reveal_with_fuel(byte_range, 9);
}

pub proof fn lemma_byte_range_grows(m: nat, n: nat)
    requires
        m <= n,
    ensures
        1 <= byte_range(m) <= byte_range(n),
    decreases n,
{
    if n > 0 {
        if m == n {
            lemma_byte_range_grows((m - 1) as nat, (n - 1) as nat);
        } else {
            lemma_byte_range_grows(m, (n - 1) as nat);
        }
    }
}

pub proof fn lemma_be_digits_len(x: int, n: nat)
    ensures
        be_digits(x, n).len() == n,
    decreases n,
{
    if n > 0 {
        lemma_be_digits_len(x / 256, (n - 1) as nat);
    }
}

pub proof fn lemma_be_value_range(s: Seq<u8>)
    ensures
        0 <= be_value(s) < byte_range(s.len()),
    decreases s.len(),
{
    if s.len() > 0 {
        lemma_be_value_range(s.drop_last());
    }
}

/// Writing a number down in base 256 and reading it back gives the number.
pub proof fn lemma_value_of_digits(x: int, n: nat)
    requires
        0 <= x < byte_range(n),
    ensures
        be_value(be_digits(x, n)) == x,
    decreases n,
{
    if n > 0 {
        let high = be_digits(x / 256, (n - 1) as nat);
        lemma_value_of_digits(x / 256, (n - 1) as nat);
        assert(be_digits(x, n).drop_last() =~= high);
    }
}

/// Reading bytes as a base-256 number and writing it down gives the bytes.
pub proof fn lemma_digits_of_value(s: Seq<u8>)
    ensures
        be_digits(be_value(s), s.len()) == s,
    decreases s.len(),
{
    if s.len() > 0 {
        lemma_digits_of_value(s.drop_last());
        let high = be_value(s.drop_last());
        assert((256 * high + s.last()) / 256 == high);
        assert((256 * high + s.last()) % 256 == s.last());
        assert(s.drop_last().push(s.last()) =~= s);
    }
}

pub proof fn lemma_native_len(order: Endian, x: int, n: nat)
    ensures
        native_bytes(order, x, n).len() == n,
{
    lemma_be_digits_len(x, n);
}

pub proof fn lemma_native_value_range(order: Endian, s: Seq<u8>)
    ensures
        0 <= native_value(order, s) < byte_range(s.len()),
{
    lemma_be_value_range(s);
    lemma_be_value_range(s.reverse());
}

/// A machine reads back the number that it stored.
pub proof fn lemma_native_roundtrip(order: Endian, x: int, n: nat)
    requires
        0 <= x < byte_range(n),
    ensures
        native_value(order, native_bytes(order, x, n)) == x,
{
    lemma_value_of_digits(x, n);
    assert(be_digits(x, n).reverse().reverse() =~= be_digits(x, n));
}

/// A machine stores the bytes that it read.
pub proof fn lemma_native_bytes_roundtrip(order: Endian, s: Seq<u8>)
    ensures
        native_bytes(order, native_value(order, s), s.len()) == s,
{
    lemma_digits_of_value(s);
    lemma_digits_of_value(s.reverse());
    assert(s.reverse().reverse() =~= s);
}

/// A number converted to big-endian order still fits its bytes, converting it
/// again gives it back, and in memory it is the big-endian digits of the
/// number, whatever the order of the machine.
pub proof fn lemma_be_converted(order: Endian, x: int, n: nat)
    requires
        0 <= x < byte_range(n),
    ensures
        0 <= be_converted(order, x, n) < byte_range(n),
        be_converted(order, be_converted(order, x, n), n) == x,
        native_bytes(order, be_converted(order, x, n), n) == be_digits(x, n),
{
    let digits = be_digits(x, n);
    lemma_be_digits_len(x, n);
    lemma_value_of_digits(x, n);
    lemma_be_value_range(digits.reverse());
    lemma_digits_of_value(digits.reverse());
    assert(digits.reverse().reverse() =~= digits);
}

/// Bytes that a machine reads as a number and converts from big-endian order
/// give the number that they spell most significant digit first, whatever the
/// order of the machine.
pub proof fn lemma_be_converted_value(order: Endian, s: Seq<u8>)
    ensures
        be_converted(order, native_value(order, s), s.len()) == be_value(s),
{
    lemma_digits_of_value(s.reverse());
    assert(s.reverse().reverse() =~= s);
}

proof fn lemma_byte_range_is_power(n: nat)
    ensures
        byte_range(n) == power::pow(256, n),
        byte_range(n) > 0,
    decreases n,
{
    reveal(power::pow);
    if n > 0 {
        lemma_byte_range_is_power((n - 1) as nat);
    }
}

proof fn lemma_be_digit(x: int, n: nat, i: int)
    requires
        0 <= x,
        0 <= i < n,
    ensures
        be_digits(x, n).len() == n,
        be_digits(x, n)[i] as int == x / byte_range((n - 1 - i) as nat) % 256,
    decreases n,
{
    lemma_be_digits_len(x, n);
    lemma_be_digits_len(x / 256, (n - 1) as nat);
    if i < n - 1 {
        let below = byte_range((n - 2 - i) as nat);
        lemma_be_digit(x / 256, (n - 1) as nat, i);
        lemma_byte_range_is_power((n - 2 - i) as nat);
        div_mod::lemma_div_denominator(x, 256, below);
        assert(byte_range((n - 1 - i) as nat) == 256 * below);
    }
}

/// A machine keeps a number with the byte of each power of 256 at the place that
/// its order gives it: the lowest power first where it is little-endian, last
/// where it is big-endian.
pub proof fn law_bytes_by_place(x: int, n: nat, i: int)
    requires
        0 <= x,
        0 <= i < n,
    ensures
        native_bytes(Endian::Big, x, n).len() == n,
        native_bytes(Endian::Little, x, n).len() == n,
        native_bytes(Endian::Big, x, n)[n - 1 - i] as int == x / power::pow(256, i as nat) % 256,
        native_bytes(Endian::Little, x, n)[i] as int == x / power::pow(256, i as nat) % 256,
{
    lemma_be_digit(x, n, n - 1 - i);
    lemma_byte_range_is_power(i as nat);
}

/// A machine reads bytes as the number below the `len`-th power of 256 that has,
/// at each power of 256, the byte at the place that the order of the machine
/// gives it.
pub proof fn law_value_by_place(s: Seq<u8>, i: int)
    requires
        0 <= i < s.len(),
    ensures
        0 <= native_value(Endian::Big, s) < power::pow(256, s.len()),
        0 <= native_value(Endian::Little, s) < power::pow(256, s.len()),
        native_value(Endian::Big, s) / power::pow(256, i as nat) % 256 == s[s.len() - 1 - i],
        native_value(Endian::Little, s) / power::pow(256, i as nat) % 256 == s[i],
{
    lemma_native_value_range(Endian::Big, s);
    lemma_native_value_range(Endian::Little, s);
    lemma_native_bytes_roundtrip(Endian::Big, s);
    lemma_native_bytes_roundtrip(Endian::Little, s);
    lemma_byte_range_is_power(s.len());
    law_bytes_by_place(native_value(Endian::Big, s), s.len(), i);
    law_bytes_by_place(native_value(Endian::Little, s), s.len(), i);
}

/// A number that a machine converts to or from big-endian order keeps its bytes:
/// on a big-endian machine at their places, so that it is the same number, and on
/// a little-endian one with the first and the last, the second and the last but
/// one, and so on, exchanged.
pub proof fn law_conversion_by_place(x: int, n: nat, i: int)
    requires
        0 <= x < power::pow(256, n),
        0 <= i < n,
    ensures
        be_converted(Endian::Big, x, n) == x,
        0 <= be_converted(Endian::Little, x, n) < power::pow(256, n),
        be_converted(Endian::Little, x, n) / power::pow(256, i as nat) % 256 == x / power::pow(
            256,
            (n - 1 - i) as nat,
        ) % 256,
{
    let y = be_converted(Endian::Little, x, n);
    lemma_byte_range_is_power(n);
    lemma_be_converted(Endian::Little, x, n);
    law_bytes_by_place(y, n, i);
    law_bytes_by_place(x, n, n - 1 - i);
}

/// The byte order of this machine.
pub fn host_order() -> (order: Endian)
    ensures
        order == vstd::endian::endianness(),
{
    let probe: u16 = 1u16.to_be();
    proof {
        reveal_with_fuel(be_digits, 3);
        reveal_with_fuel(be_value, 3);
        assert(be_digits(1, 2).reverse() =~= seq![1u8, 0u8]);
        assert(seq![1u8, 0u8].drop_last() =~= seq![1u8]);
    }
    if probe == 1 {
        Endian::Big
    } else {
        Endian::Little
    }
}

/// The `n` least significant base-256 digits of `x`, least significant first.
fn little_digits(x: u64, n: usize) -> (digits: Vec<u8>)
    ensures
        digits@ == be_digits(x as int, n as nat).reverse(),
{
    let mut digits: Vec<u8> = Vec::new();
    let mut rest: u64 = x;
    let mut i: usize = 0;
    while i < n
        invariant
            i <= n,
            digits@ + be_digits(rest as int, (n - i) as nat).reverse() == be_digits(
                x as int,
                n as nat,
            ).reverse(),
        decreases n - i,
    {
        let ghost high = be_digits(rest as int / 256, (n - i - 1) as nat);
        let ghost before = digits@;
        digits.push((rest % 256) as u8);
        rest = rest / 256;
        i = i + 1;
        assert(high.push(digits@.last()).reverse() =~= seq![digits@.last()] + high.reverse());
        assert(before + (seq![digits@.last()] + high.reverse()) =~= digits@ + high.reverse());
    }
    assert(digits@ + be_digits(rest as int, 0).reverse() =~= digits@);
    digits
}

/// Appends the `n` bytes that `x` occupies in the memory of a machine of the
/// given order.
pub fn push_native(out: &mut Vec<u8>, order: &Endian, x: u64, n: usize)
    ensures
        final(out)@ == old(out)@ + native_bytes(*order, x as int, n as nat),
{
    let digits = little_digits(x, n);
    let ghost be = be_digits(x as int, n as nat);
    proof {
        lemma_be_digits_len(x as int, n as nat);
        assert(be.reverse().reverse() =~= be);
    }
    let mut i: usize = 0;
    while i < n
        invariant
            i <= n,
            digits@.len() == n,
            digits@ == be.reverse(),
            be.len() == n,
            be == be_digits(x as int, n as nat),
            out@ == old(out)@ + native_bytes(*order, x as int, n as nat).take(i as int),
        decreases n - i,
    {
        let at: usize = match order {
            Endian::Big => n - 1 - i,
            Endian::Little => i,
        };
        out.push(digits[at]);
        i = i + 1;
        assert(out@ =~= old(out)@ + native_bytes(*order, x as int, n as nat).take(i as int));
    }
    assert(native_bytes(*order, x as int, n as nat).take(n as int) =~= native_bytes(
        *order,
        x as int,
        n as nat,
    ));
}

/// The number that a machine of the given order reads from the `n` bytes of
/// `buf` that start at `at`.
pub fn read_native(buf: &[u8], order: &Endian, at: usize, n: usize) -> (x: u64)
    requires
        n <= 8,
        at + n <= buf@.len(),
    ensures
        x == native_value(*order, buf@.subrange(at as int, at + n)),
{
    let len: usize = buf.len();
    let ghost s = buf@.subrange(at as int, at + n);
    let ghost be = match *order {
        Endian::Big => s,
        Endian::Little => s.reverse(),
    };
    let mut x: u64 = 0;
    let mut i: usize = 0;
    assert(be.take(0) =~= Seq::<u8>::empty());
    while i < n
        invariant
            i <= n <= 8,
            at + n <= len == buf@.len(),
            s == buf@.subrange(at as int, at + n),
            be == (match *order {
                Endian::Big => s,
                Endian::Little => s.reverse(),
            }),
            x == be_value(be.take(i as int)),
        decreases n - i,
    {
        let k: usize = match order {
            Endian::Big => at + i,
            Endian::Little => at + (n - 1 - i),
        };
        proof {
            lemma_be_value_range(be.take(i + 1));
            lemma_byte_range_grows((i + 1) as nat, 8);
            lemma_byte_ranges();
            assert(be.take(i + 1).drop_last() =~= be.take(i as int));
            assert(be.take(i + 1).last() == buf@[k as int]);
        }
        x = x * 256 + buf[k] as u64;
        i = i + 1;
    }
    assert(be.take(n as int) =~= be);
    x
}

} // verus!
