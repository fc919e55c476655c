//! Building text: decimal and hexadecimal numerals, and string pieces.

use vstd::prelude::*;

verus! {

/// Appends one character to a string.
/// Trusted: `String::push` (std) appends `c` at the end of the string.
#[verifier::external_body]
pub(crate) fn push_char(s: &mut String, c: char)
    ensures
        final(s)@ == old(s)@.push(c),
{
    s.push(c);
}

/// The lower-case hexadecimal digit for `d` (0–15); decimal digits are the first ten.
pub open spec fn digit_char(d: int) -> char {
    if d == 0 {
        '0'
    } else if d == 1 {
        '1'
    } else if d == 2 {
        '2'
    } else if d == 3 {
        '3'
    } else if d == 4 {
        '4'
    } else if d == 5 {
        '5'
    } else if d == 6 {
        '6'
    } else if d == 7 {
        '7'
    } else if d == 8 {
        '8'
    } else if d == 9 {
        '9'
    } else if d == 10 {
        'a'
    } else if d == 11 {
        'b'
    } else if d == 12 {
        'c'
    } else if d == 13 {
        'd'
    } else if d == 14 {
        'e'
    } else {
        'f'
    }
}

/// The decimal numeral of `n`, without leading zeros.
pub open spec fn decimal(n: nat) -> Seq<char>
    decreases n,
{
    if n < 10 {
        seq![digit_char(n as int)]
    } else {
        decimal(n / 10).push(digit_char((n % 10) as int))
    }
}

/// The hexadecimal digit for `d`.
pub fn digit(d: u64) -> (c: char)
    requires
        d < 16,
    ensures
        c == digit_char(d as int),
{
    match d {
        0 => '0',
        1 => '1',
        2 => '2',
        3 => '3',
        4 => '4',
        5 => '5',
        6 => '6',
        7 => '7',
        8 => '8',
        9 => '9',
        10 => 'a',
        11 => 'b',
        12 => 'c',
        13 => 'd',
        14 => 'e',
        _ => 'f',
    }
}

/// Appends the decimal numeral of `n`.
pub fn push_decimal(out: &mut String, n: u64)
    ensures
        final(out)@ == old(out)@ + decimal(n as nat),
    decreases n,
{
    if n >= 10 {
        push_decimal(out, n / 10);
    }
    push_char(out, digit(n % 10));
    proof {
        if n < 10 {
            assert(n % 10 == n);
        }
    }
}

/// `16^n`.
pub open spec fn pow16(n: nat) -> nat
    decreases n,
{
    if n == 0 {
        1
    } else {
        16 * pow16((n - 1) as nat)
    }
}

/// The 16-digit, zero-padded, lower-case hexadecimal numeral of `x`.
pub open spec fn hex16(x: u64) -> Seq<char> {
    Seq::new(16, |i: int| digit_char(((x as nat / pow16((15 - i) as nat)) % 16) as int))
}

/// The 16-digit, zero-padded, lower-case hexadecimal numeral of `x`.
pub fn hex16_string(x: u64) -> (s: String)
    ensures
        s@ == hex16(x),
{
    let mut s = String::new();
    let mut div: u64 = 0x1000_0000_0000_0000;
    let mut i: usize = 0;
    assert(pow16(15) == 0x1000_0000_0000_0000) by {
        reveal_with_fuel(pow16, 16);
    }
    while i < 16
        invariant
            i <= 16,
            div as nat == pow16((15 - i) as nat) || i == 16,
            s@ == hex16(x).take(i as int),
        decreases 16 - i,
    {
        proof {
            assert(div > 0) by {
                lemma_pow16_positive((15 - i) as nat);
            }
        }
        let d = (x / div) % 16;
        push_char(&mut s, digit(d));
        assert(s@ == hex16(x).take(i + 1));
        if i < 15 {
            proof {
                lemma_pow16_step((14 - i) as nat);
            }
            div = div / 16;
        }
        i += 1;
    }
    assert(hex16(x).take(16) == hex16(x));
    s
}

proof fn lemma_pow16_positive(n: nat)
    ensures
        pow16(n) > 0,
    decreases n,
{
    if n > 0 {
        lemma_pow16_positive((n - 1) as nat);
    }
}

proof fn lemma_pow16_step(n: nat)
    ensures
        pow16(n + 1) / 16 == pow16(n),
{
    assert(pow16(n + 1) == 16 * pow16(n));
    assert((16 * pow16(n)) / 16 == pow16(n)) by (nonlinear_arith);
}

} // verus!
