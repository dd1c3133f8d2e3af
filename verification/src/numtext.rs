//! Positional notation of natural numbers, as calculator input bytes.
use vstd::prelude::*;

use vstd::arithmetic::div_mod::lemma_div_decreases;
use vstd::arithmetic::div_mod::lemma_fundamental_div_mod;

verus! {

/// The ASCII digit for `d` (`0`-`9`, then upper-case `A`-`F`).
pub open spec fn digit_char(d: nat) -> u8 {
    if d < 10 {
        (48 + d) as u8
    } else {
        (55 + d) as u8
    }
}

/// The digits of `n` written in `base`, most significant first, without
/// leading zeros (zero is the single digit `0`).
pub open spec fn digits_of(n: nat, base: nat) -> Seq<u8>
    decreases n,
{
    if base < 2 || n < base {
        seq![digit_char(n)]
    } else {
        proof {
            lemma_div_decreases(n as int, base as int);
        }
        digits_of(n / base, base).push(digit_char(n % base))
    }
}

/// `s` preceded by as many `0` as make it `width` long (unchanged when it is
/// already that long).
pub open spec fn zero_padded(s: Seq<u8>, width: nat) -> Seq<u8> {
    if s.len() < width {
        Seq::new((width - s.len()) as nat, |i: int| 48u8) + s
    } else {
        s
    }
}

/// Every byte of `s` is a printable ASCII character other than space.
pub open spec fn printable(s: Seq<u8>) -> bool {
    forall|i: int| 0 <= i < s.len() ==> 0x21 <= #[trigger] s[i] <= 0x7e
}

/// The digits of a number are never empty and are printable.
pub proof fn lemma_digits_printable(n: nat, base: nat)
    requires
        2 <= base <= 16,
    ensures
        digits_of(n, base).len() > 0,
        printable(digits_of(n, base)),
    decreases n,
{
    if base < 2 || n < base {
    } else {
        lemma_div_decreases(n as int, base as int);
        lemma_digits_printable(n / base, base);
        let d = digit_char(n % base);
        assert(0x21 <= d <= 0x7e);
        let prev = digits_of(n / base, base);
        assert forall|i: int| 0 <= i < prev.push(d).len() implies 0x21 <= #[trigger] prev.push(d)[i] <= 0x7e by {
            if i < prev.len() {
                assert(prev.push(d)[i] == prev[i]);
            }
        }
    }
}

/// The value of an ASCII digit (`0`-`9`, `A`-`F`).
pub open spec fn digit_value(c: u8) -> int {
    if c <= 57 {
        c - 48
    } else {
        c - 55
    }
}

/// The number that a digit string denotes in `base`, most significant digit
/// first.
pub open spec fn value_of_digits(s: Seq<u8>, base: nat) -> int
    decreases s.len(),
{
    if s.len() == 0 {
        0
    } else {
        value_of_digits(s.drop_last(), base) * base + digit_value(s.last())
    }
}

/// The digits of `n` in `base` read back as `n`.
pub proof fn lemma_digits_value(n: nat, base: nat)
    requires
        2 <= base <= 16,
    ensures
        value_of_digits(digits_of(n, base), base) == n,
    decreases n,
{
    let s = digits_of(n, base);
    if n < base {
        assert(s.drop_last() =~= Seq::<u8>::empty());
        assert(value_of_digits(s.drop_last(), base) == 0);
        assert(0 * base == 0) by (nonlinear_arith);
        assert(digit_value(digit_char(n)) == n);
        assert(value_of_digits(s, base) == value_of_digits(s.drop_last(), base) * base + digit_value(
            s.last(),
        ));
    } else {
        lemma_div_decreases(n as int, base as int);
        lemma_digits_value(n / base, base);
        let prev = digits_of(n / base, base);
        assert(s.drop_last() =~= prev);
        assert(s.last() == digit_char(n % base));
        assert(digit_value(digit_char(n % base)) == n % base);
        lemma_fundamental_div_mod(n as int, base as int);
        assert((n / base) as int * base == base * (n / base) as int) by (nonlinear_arith);
        assert(value_of_digits(s, base) == value_of_digits(prev, base) * base + digit_value(
            s.last(),
        ));
    }
}

/// Bytes of calculator input: digits, upper-case hexadecimal digits, the
/// radix letters `x`, `X`, `b`, `B`, the point, the operator characters
/// and parentheses.
pub open spec fn calc_byte(b: u8) -> bool {
    ||| 48 <= b <= 57
    ||| 65 <= b <= 70
    ||| b == 120 || b == 88 || b == 98 || b == 66 || b == 46
    ||| b == 43 || b == 45 || b == 42 || b == 47 || b == 37
    ||| b == 124 || b == 94 || b == 38 || b == 60 || b == 62
    ||| b == 40 || b == 41
}

/// Every byte of `s` belongs to calculator input.
pub open spec fn in_alphabet(s: Seq<u8>) -> bool {
    forall|i: int| 0 <= i < s.len() ==> calc_byte(#[trigger] s[i])
}

/// `s` holds no parenthesis.
pub open spec fn paren_free(s: Seq<u8>) -> bool {
    forall|i: int| 0 <= i < s.len() ==> #[trigger] s[i] != 40 && s[i] != 41
}

/// The digits of a number belong to calculator input and hold no
/// parenthesis.
pub proof fn lemma_digits_alphabet(n: nat, base: nat)
    requires
        2 <= base <= 16,
    ensures
        in_alphabet(digits_of(n, base)),
        paren_free(digits_of(n, base)),
    decreases n,
{
    if base < 2 || n < base {
    } else {
        lemma_div_decreases(n as int, base as int);
        lemma_digits_alphabet(n / base, base);
        let d = digit_char(n % base);
        let prev = digits_of(n / base, base);
        assert forall|i: int| 0 <= i < prev.push(d).len() implies calc_byte(#[trigger] prev.push(d)[i])
            && prev.push(d)[i] != 40 && prev.push(d)[i] != 41 by {
            if i < prev.len() {
                assert(prev.push(d)[i] == prev[i]);
            }
        }
    }
}

/// Zero padding keeps a digit string within calculator input and free of
/// parentheses.
pub proof fn lemma_zero_padded_alphabet(s: Seq<u8>, width: nat)
    requires
        in_alphabet(s),
        paren_free(s),
    ensures
        in_alphabet(zero_padded(s, width)),
        paren_free(zero_padded(s, width)),
{
    if s.len() < width {
        let z = Seq::new((width - s.len()) as nat, |i: int| 48u8);
        assert forall|i: int| 0 <= i < zero_padded(s, width).len() implies calc_byte(
            #[trigger] zero_padded(s, width)[i],
        ) && zero_padded(s, width)[i] != 40 && zero_padded(s, width)[i] != 41 by {
            if i >= z.len() {
                assert(zero_padded(s, width)[i] == s[i - z.len()]);
            }
        }
    }
}

/// A digit-sequence padded with zeros stays printable.
pub proof fn lemma_zero_padded_printable(s: Seq<u8>, width: nat)
    requires
        printable(s),
    ensures
        printable(zero_padded(s, width)),
        zero_padded(s, width).len() >= s.len(),
{
    if s.len() < width {
        let z = Seq::new((width - s.len()) as nat, |i: int| 48u8);
        assert forall|i: int| 0 <= i < zero_padded(s, width).len() implies 0x21 <= #[trigger] zero_padded(
            s,
            width,
        )[i] <= 0x7e by {
            if i < z.len() {
            } else {
                assert(zero_padded(s, width)[i] == s[i - z.len()]);
            }
        }
    }
}

/// Appends the digits of `n` in `base` to `out`.
pub fn push_digits(n: u128, base: u128, out: &mut Vec<u8>)
    requires
        2 <= base <= 16,
    ensures
        final(out)@ == old(out)@ + digits_of(n as nat, base as nat),
    decreases n,
{
    if n < base {
        out.push(digit_byte(n));
    } else {
        proof {
            lemma_div_decreases(n as int, base as int);
        }
        push_digits(n / base, base, out);
        out.push(digit_byte(n % base));
        proof {
            assert(digits_of(n as nat, base as nat) == digits_of((n / base) as nat, base as nat).push(
                digit_char((n % base) as nat),
            ));
        }
    }
}

/// The ASCII digit for `d`.
fn digit_byte(d: u128) -> (r: u8)
    requires
        d < 16,
    ensures
        r == digit_char(d as nat),
{
    if d < 10 {
        (48 + d) as u8
    } else {
        (55 + d) as u8
    }
}

/// Appends the digits of `n` in base ten, padded on the left with zeros to
/// `width` digits.
pub fn push_padded_decimal(n: u64, width: u32, out: &mut Vec<u8>)
    ensures
        final(out)@ == old(out)@ + zero_padded(digits_of(n as nat, 10), width as nat),
{
    let mut digits: Vec<u8> = Vec::new();
    push_digits(n as u128, 10, &mut digits);
    assert(digits@ =~= digits_of(n as nat, 10));
    let len = digits.len();
    if len < width as usize {
        let pad = width as usize - len;
        let ghost start = out@;
        let mut i: usize = 0;
        while i < pad
            invariant
                i <= pad,
                out@ == start + Seq::new(i as nat, |k: int| 48u8),
            decreases pad - i,
        {
            out.push(48u8);
            i = i + 1;
            assert(out@ =~= start + Seq::new(i as nat, |k: int| 48u8));
        }
    }
    out.append(&mut digits);
    assert(out@ =~= old(out)@ + zero_padded(digits_of(n as nat, 10), width as nat));
}

} // verus!
